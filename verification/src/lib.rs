//! Monthly declaration of creative work: the calendar arithmetic, the request
//! that asks a review service for one author's reviews of a month, the decoding
//! of what the service answers, and the rendering of the declaration's text.
//!
//! - `calendar`: dates, months and instants, and what `chrono` does with them
//! - `text`: decimal numbers, joined lines and the replacement of tokens
//! - `placeholder`: where tokens occur, before and after a replacement
//! - `template`: the text of the declaration and where its placeholders stand
//! - `review`: reviews as they are reported, and as they are decoded
//! - `request`: the address and the headers of the request
//! - `render`: the table rows and the filled-in declaration
//! - `report`: a run from its inputs to the declaration or an error

pub mod calendar;
pub mod placeholder;
pub mod render;
pub mod report;
pub mod request;
pub mod review;
pub mod template;
pub mod text;
