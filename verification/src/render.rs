//! The declaration's text: one table row for each review that was not
//! deleted, and the template with its placeholders filled in.

use crate::calendar::{lemma_date_texts_are_figures, MonthModel, MonthSpec};
use crate::placeholder::{
    filled_all, foreign, is_figures, lacks, lemma_decimal_is_figures, lemma_figures_lack_braces,
    lemma_joined_stays_free, lemma_lacking_the_first, lemma_replaced_in_pieces,
    lemma_replaced_keeps_unmatched, lemma_replaced_placeholder, lemma_replaced_stays_free,
    lemma_seam, occurs_at, occurs_in, well_cut, Piece,
};
use crate::review::{models, ReviewEntry, ReviewModel, ReviewState};
use crate::template::{
    fixed_part, lemma_flat_of_fifteen, lemma_template_pieces, lemma_template_shape,
    lemma_tokens_are_placeholders, rows_at, template_pieces, LAST_DAY_TOKEN, MONTH_TOKEN,
    PERCENT_TOKEN, ROWS_TOKEN, TEMPLATE,
};
use crate::text::{
    chars_of, decimal, decimal_text, join_lines, joined, push_decimal, push_natural, replace_all,
    replace_chars, replaced, string_of, texts,
};
use vstd::prelude::*;
use vstd::string::StringExecFns;

verus! {

/// The address at which a review can be read.
pub open spec fn review_url_text(domain: Seq<char>, project_key: Seq<char>, number: int) -> Seq<
    char,
> {
    "https://"@ + domain + "/p/"@ + project_key + "/reviews/"@ + decimal_text(number)
}

/// What the table shows for a state; a deleted review is not shown.
pub open spec fn status_text(state: ReviewState) -> Option<Seq<char>> {
    match state {
        ReviewState::Opened => Some("Unfinished"@),
        ReviewState::Closed => Some("Finished"@),
        ReviewState::Deleted => None,
    }
}

/// A title as it stands in a table cell: a backslash before each bar.
pub open spec fn escaped_title(title: Seq<char>) -> Seq<char> {
    replaced(title, "|"@, "\\|"@)
}

/// The table row of a review that is shown, under the given row number.
pub open spec fn row_text(
    index: int,
    entry: ReviewModel,
    domain: Seq<char>,
    author: Seq<char>,
) -> Seq<char>
    recommends
        status_text(entry.state) is Some,
{
    let url = review_url_text(domain, entry.project_key, entry.number);
    "| "@ + decimal_text(index) + " | "@ + escaped_title(entry.title) + " | "@ + author + " | "@
        + "["@ + url + "]("@ + url + ")"@ + " | "@ + status_text(entry.state)->0 + " | "@
        + entry.created_at.date.day_month_year_text() + " |"@
}

/// The reviews that are shown: those that were not deleted, in their order.
pub open spec fn shown(entries: Seq<ReviewModel>) -> Seq<ReviewModel>
    decreases entries.len(),
{
    if entries.len() == 0 {
        Seq::empty()
    } else if entries.last().state is Deleted {
        shown(entries.drop_last())
    } else {
        shown(entries.drop_last()).push(entries.last())
    }
}

/// The table rows: one for each review that is shown, numbered from 1 without
/// gaps.
pub open spec fn rows_of(entries: Seq<ReviewModel>, domain: Seq<char>, author: Seq<char>) -> Seq<
    Seq<char>,
> {
    let kept = shown(entries);
    Seq::new(kept.len(), |i: int| row_text(i + 1, kept[i], domain, author))
}

/// The template with the rows, the month, the percentage and the last day of
/// the month put in place of their placeholders, one placeholder after the
/// other in this order.
pub open spec fn document_text(
    rows: Seq<char>,
    month: Seq<char>,
    percent: Seq<char>,
    last_day: Seq<char>,
) -> Seq<char> {
    replaced(
        replaced(
            replaced(replaced(TEMPLATE@, ROWS_TOKEN@, rows), MONTH_TOKEN@, month),
            PERCENT_TOKEN@,
            percent,
        ),
        LAST_DAY_TOKEN@,
        last_day,
    )
}

/// The declaration for `month` that lists `entries`.
pub open spec fn declaration_text(
    entries: Seq<ReviewModel>,
    month: MonthModel,
    percent: int,
    domain: Seq<char>,
    author: Seq<char>,
) -> Seq<char> {
    document_text(
        joined(rows_of(entries, domain, author), "\n"@),
        month.first_day().month_year_text(),
        decimal_text(percent),
        month.last_day().day_month_year_text(),
    )
}

/// The rows stand in the template where their placeholder stood, between what
/// the template holds before and behind it. The placeholder for the rows
/// stands in the result exactly when it stands in the rows.
pub proof fn lemma_rows_in_place(rows: Seq<char>)
    ensures
        replaced(TEMPLATE@, ROWS_TOKEN@, rows) == TEMPLATE@.take(rows_at()) + rows
            + TEMPLATE@.skip(rows_at() + 5),
        occurs_in(replaced(TEMPLATE@, ROWS_TOKEN@, rows), ROWS_TOKEN@) <==> occurs_in(
            rows,
            ROWS_TOKEN@,
        ),
{
    let template = TEMPLATE@;
    let token = ROWS_TOKEN@;
    let head = template.take(rows_at());
    let from_token = template.skip(rows_at());
    let tail = template.skip(rows_at() + 5);
    let filled = head + rows + tail;
    lemma_template_shape();
    lemma_tokens_are_placeholders();
    lemma_replaced_keeps_unmatched(template, token, rows, rows_at());
    assert(from_token.take(5) =~= template.subrange(rows_at(), rows_at() + 5));
    assert(from_token.skip(5) =~= tail);
    assert forall|at: int| 0 <= at < tail.len() implies !occurs_at(tail, token, at) by {
        if occurs_at(tail, token, at) {
            assert(tail.subrange(at, at + 5) =~= template.subrange(
                at + rows_at() + 5,
                at + rows_at() + 10,
            ));
            assert(occurs_at(template, token, at + rows_at() + 5));
        }
    }
    lemma_replaced_keeps_unmatched(tail, token, rows, tail.len() as int);
    assert(tail.take(tail.len() as int) =~= tail);
    assert(tail.skip(tail.len() as int) =~= Seq::<char>::empty());
    assert(tail + Seq::<char>::empty() =~= tail);
    assert(replaced(template, token, rows) =~= filled);
    if occurs_in(rows, token) {
        let at = choose|at: int| occurs_at(rows, token, at);
        assert(filled.subrange(at + rows_at(), at + rows_at() + 5) =~= rows.subrange(at, at + 5));
        assert(occurs_at(filled, token, at + rows_at()));
    }
    if occurs_in(filled, token) {
        let at = choose|at: int| occurs_at(filled, token, at);
        let found = filled.subrange(at, at + 5);
        assert(found[0] == filled[at]);
        if at < rows_at() {
            assert(filled[at] == template[at]);
            assert(found =~= template.subrange(at, at + 5));
            assert(occurs_at(template, token, at));
        } else if at >= rows_at() + rows.len() {
            assert(found =~= template.subrange(at - rows.len() + 5, at - rows.len() + 10));
            assert(occurs_at(template, token, at - rows.len() + 5));
        } else if at + 5 <= rows_at() + rows.len() {
            assert(found =~= rows.subrange(at - rows_at(), at - rows_at() + 5));
            assert(occurs_at(rows, token, at - rows_at()));
        } else {
            let k = rows_at() + rows.len() - at;
            assert(found[k] == filled[rows_at() + rows.len()]);
            assert(filled[rows_at() + rows.len()] == template[rows_at() + 5]);
        }
    }
}

/// The rows as they stand in a document: the placeholders that are replaced
/// after the rows are in place are replaced in the rows too.
pub open spec fn filled_rows(
    rows: Seq<char>,
    month: Seq<char>,
    percent: Seq<char>,
    last_day: Seq<char>,
) -> Seq<char> {
    replaced(
        replaced(replaced(rows, MONTH_TOKEN@, month), PERCENT_TOKEN@, percent),
        LAST_DAY_TOKEN@,
        last_day,
    )
}

/// A document keeps the fixed text of the template as it is, with the values
/// between its parts in place of the placeholders: the last day twice, the
/// month, the rows, and the percentage three times.
pub proof fn lemma_document_keeps_template(
    rows: Seq<char>,
    month: Seq<char>,
    percent: Seq<char>,
    last_day: Seq<char>,
)
    requires
        lacks(month, '{'),
        lacks(percent, '{'),
        lacks(last_day, '{'),
    ensures
        document_text(rows, month, percent, last_day) == fixed_part(0) + last_day + fixed_part(1)
            + last_day + fixed_part(2) + month + fixed_part(3) + filled_rows(
            rows,
            month,
            percent,
            last_day,
        ) + fixed_part(4) + percent + fixed_part(5) + percent + fixed_part(6) + percent
            + fixed_part(7),
{
    lemma_rows_in_place(rows);
    lemma_template_pieces(rows);
    lemma_tokens_are_placeholders();
    let rows1 = replaced(rows, MONTH_TOKEN@, month);
    let rows2 = replaced(rows1, PERCENT_TOKEN@, percent);
    let rows3 = replaced(rows2, LAST_DAY_TOKEN@, last_day);
    let cut0 = template_pieces(rows);
    let cut1 = seq![
        Piece::Plain(fixed_part(0)),
        Piece::Token(LAST_DAY_TOKEN@),
        Piece::Plain(fixed_part(1)),
        Piece::Token(LAST_DAY_TOKEN@),
        Piece::Plain(fixed_part(2)),
        Piece::Plain(month),
        Piece::Plain(fixed_part(3)),
        Piece::Free(rows1),
        Piece::Plain(fixed_part(4)),
        Piece::Token(PERCENT_TOKEN@),
        Piece::Plain(fixed_part(5)),
        Piece::Token(PERCENT_TOKEN@),
        Piece::Plain(fixed_part(6)),
        Piece::Token(PERCENT_TOKEN@),
        Piece::Plain(fixed_part(7)),
    ];
    let cut2 = seq![
        Piece::Plain(fixed_part(0)),
        Piece::Token(LAST_DAY_TOKEN@),
        Piece::Plain(fixed_part(1)),
        Piece::Token(LAST_DAY_TOKEN@),
        Piece::Plain(fixed_part(2)),
        Piece::Plain(month),
        Piece::Plain(fixed_part(3)),
        Piece::Free(rows2),
        Piece::Plain(fixed_part(4)),
        Piece::Plain(percent),
        Piece::Plain(fixed_part(5)),
        Piece::Plain(percent),
        Piece::Plain(fixed_part(6)),
        Piece::Plain(percent),
        Piece::Plain(fixed_part(7)),
    ];
    let cut3 = seq![
        Piece::Plain(fixed_part(0)),
        Piece::Plain(last_day),
        Piece::Plain(fixed_part(1)),
        Piece::Plain(last_day),
        Piece::Plain(fixed_part(2)),
        Piece::Plain(month),
        Piece::Plain(fixed_part(3)),
        Piece::Free(rows3),
        Piece::Plain(fixed_part(4)),
        Piece::Plain(percent),
        Piece::Plain(fixed_part(5)),
        Piece::Plain(percent),
        Piece::Plain(fixed_part(6)),
        Piece::Plain(percent),
        Piece::Plain(fixed_part(7)),
    ];
    assert(well_cut(cut0, MONTH_TOKEN@));
    lemma_replaced_in_pieces(cut0, MONTH_TOKEN@, month);
    assert(filled_all(cut0, MONTH_TOKEN@, month) =~= cut1);
    assert(well_cut(cut1, PERCENT_TOKEN@));
    lemma_replaced_in_pieces(cut1, PERCENT_TOKEN@, percent);
    assert(filled_all(cut1, PERCENT_TOKEN@, percent) =~= cut2);
    assert(well_cut(cut2, LAST_DAY_TOKEN@));
    lemma_replaced_in_pieces(cut2, LAST_DAY_TOKEN@, last_day);
    assert(filled_all(cut2, LAST_DAY_TOKEN@, last_day) =~= cut3);
    lemma_flat_of_fifteen(cut3);
}

/// Which placeholders are left in a document whose month, percentage and last
/// day are written with figures: none of these three, and the placeholder for
/// the rows exactly when the rows themselves hold it.
pub proof fn lemma_placeholders_left(
    rows: Seq<char>,
    month: Seq<char>,
    percent: Seq<char>,
    last_day: Seq<char>,
)
    requires
        is_figures(month),
        is_figures(percent),
        is_figures(last_day),
    ensures
        !occurs_in(document_text(rows, month, percent, last_day), MONTH_TOKEN@),
        !occurs_in(document_text(rows, month, percent, last_day), PERCENT_TOKEN@),
        !occurs_in(document_text(rows, month, percent, last_day), LAST_DAY_TOKEN@),
        occurs_in(document_text(rows, month, percent, last_day), ROWS_TOKEN@) <==> occurs_in(
            rows,
            ROWS_TOKEN@,
        ),
{
    let with_rows = replaced(TEMPLATE@, ROWS_TOKEN@, rows);
    let with_month = replaced(with_rows, MONTH_TOKEN@, month);
    let with_percent = replaced(with_month, PERCENT_TOKEN@, percent);
    lemma_tokens_are_placeholders();
    lemma_rows_in_place(rows);
    lemma_replaced_placeholder(with_rows, MONTH_TOKEN@, month, MONTH_TOKEN@);
    lemma_replaced_placeholder(with_rows, MONTH_TOKEN@, month, ROWS_TOKEN@);
    lemma_replaced_placeholder(with_month, PERCENT_TOKEN@, percent, PERCENT_TOKEN@);
    lemma_replaced_placeholder(with_month, PERCENT_TOKEN@, percent, MONTH_TOKEN@);
    lemma_replaced_placeholder(with_month, PERCENT_TOKEN@, percent, ROWS_TOKEN@);
    lemma_replaced_placeholder(with_percent, LAST_DAY_TOKEN@, last_day, LAST_DAY_TOKEN@);
    lemma_replaced_placeholder(with_percent, LAST_DAY_TOKEN@, last_day, PERCENT_TOKEN@);
    lemma_replaced_placeholder(with_percent, LAST_DAY_TOKEN@, last_day, MONTH_TOKEN@);
    lemma_replaced_placeholder(with_percent, LAST_DAY_TOKEN@, last_day, ROWS_TOKEN@);
}

/// In a declaration the placeholders for the month, the percentage and the
/// last day are all replaced, whatever the reviews hold. The placeholder for
/// the rows is left exactly where a row holds it, as in a title.
pub proof fn lemma_declaration_placeholders(
    entries: Seq<ReviewModel>,
    month: MonthModel,
    percent: int,
    domain: Seq<char>,
    author: Seq<char>,
)
    ensures
        !occurs_in(declaration_text(entries, month, percent, domain, author), MONTH_TOKEN@),
        !occurs_in(declaration_text(entries, month, percent, domain, author), PERCENT_TOKEN@),
        !occurs_in(declaration_text(entries, month, percent, domain, author), LAST_DAY_TOKEN@),
        occurs_in(declaration_text(entries, month, percent, domain, author), ROWS_TOKEN@)
            <==> occurs_in(joined(rows_of(entries, domain, author), "\n"@), ROWS_TOKEN@),
{
    lemma_date_texts_are_figures(month.first_day());
    lemma_date_texts_are_figures(month.last_day());
    lemma_decimal_is_figures(percent);
    lemma_placeholders_left(
        joined(rows_of(entries, domain, author), "\n"@),
        month.first_day().month_year_text(),
        decimal_text(percent),
        month.last_day().day_month_year_text(),
    );
}

/// A literal part of a row behind a text: the placeholder for the rows does
/// not come to stand in the whole by it.
proof fn lemma_fixed_behind(front: Seq<char>, fixed: Seq<char>)
    requires
        !occurs_in(front, ROWS_TOKEN@),
        fixed.len() > 0,
        lacks(fixed, '{'),
        foreign(fixed[0], ROWS_TOKEN@),
    ensures
        !occurs_in(front + fixed, ROWS_TOKEN@),
{
    lemma_tokens_are_placeholders();
    lemma_lacking_the_first(fixed, ROWS_TOKEN@);
    lemma_seam(front, fixed, ROWS_TOKEN@);
}

/// A field of a row behind a text that ends with a character foreign to the
/// placeholder for the rows: the placeholder does not come to stand in the
/// whole by it.
proof fn lemma_field_behind(front: Seq<char>, end: char, field: Seq<char>)
    requires
        !occurs_in(front, ROWS_TOKEN@),
        !occurs_in(field, ROWS_TOKEN@),
        front.len() > 0,
        front.last() == end,
        foreign(end, ROWS_TOKEN@),
    ensures
        !occurs_in(front + field, ROWS_TOKEN@),
{
    lemma_tokens_are_placeholders();
    lemma_seam(front, field, ROWS_TOKEN@);
}

/// The address of a review holds the placeholder for the rows only where the
/// domain or the project's key holds it.
pub proof fn lemma_url_stays_free(domain: Seq<char>, project_key: Seq<char>, number: int)
    requires
        !occurs_in(domain, ROWS_TOKEN@),
        !occurs_in(project_key, ROWS_TOKEN@),
    ensures
        !occurs_in(review_url_text(domain, project_key, number), ROWS_TOKEN@),
{
    reveal_strlit("{prs}");
    reveal_strlit("https://");
    reveal_strlit("/p/");
    reveal_strlit("/reviews/");
    lemma_tokens_are_placeholders();
    let token = ROWS_TOKEN@;
    let digits = decimal_text(number);
    lemma_decimal_is_figures(number);
    lemma_figures_lack_braces(digits);
    lemma_lacking_the_first(digits, token);
    lemma_lacking_the_first("https://"@, token);
    assert(foreign('/', token));
    let u1 = "https://"@ + domain;
    lemma_field_behind("https://"@, '/', domain);
    let u2 = u1 + "/p/"@;
    lemma_fixed_behind(u1, "/p/"@);
    assert(u2.last() == '/');
    let u3 = u2 + project_key;
    lemma_field_behind(u2, '/', project_key);
    let u4 = u3 + "/reviews/"@;
    lemma_fixed_behind(u3, "/reviews/"@);
    assert(u4.last() == '/');
    lemma_field_behind(u4, '/', digits);
}

/// A row holds the placeholder for the rows only where the title, the
/// project's key, the domain or the author's name holds it.
pub proof fn lemma_row_stays_free(
    index: int,
    entry: ReviewModel,
    domain: Seq<char>,
    author: Seq<char>,
)
    requires
        status_text(entry.state) is Some,
        !occurs_in(entry.title, ROWS_TOKEN@),
        !occurs_in(entry.project_key, ROWS_TOKEN@),
        !occurs_in(domain, ROWS_TOKEN@),
        !occurs_in(author, ROWS_TOKEN@),
    ensures
        !occurs_in(row_text(index, entry, domain, author), ROWS_TOKEN@),
{
    reveal_strlit("{prs}");
    reveal_strlit("| ");
    reveal_strlit(" | ");
    reveal_strlit("[");
    reveal_strlit("](");
    reveal_strlit(")");
    reveal_strlit(" |");
    reveal_strlit("Unfinished");
    reveal_strlit("Finished");
    reveal_strlit("|");
    reveal_strlit("\\|");
    lemma_tokens_are_placeholders();
    let token = ROWS_TOKEN@;
    assert(foreign(' ', token));
    assert(foreign('[', token));
    assert(foreign(']', token));
    assert(foreign('(', token));
    assert(foreign(')', token));
    assert(foreign('|', token));
    assert(foreign('\\', token));
    let url = review_url_text(domain, entry.project_key, entry.number);
    lemma_url_stays_free(domain, entry.project_key, entry.number);
    let title = escaped_title(entry.title);
    lemma_replaced_stays_free(entry.title, "|"@, "\\|"@, token);
    let status = status_text(entry.state)->0;
    assert(lacks(status, '{'));
    lemma_lacking_the_first(status, token);
    let date = entry.created_at.date.day_month_year_text();
    lemma_date_texts_are_figures(entry.created_at.date);
    lemma_figures_lack_braces(date);
    lemma_lacking_the_first(date, token);
    let count = decimal_text(index);
    lemma_decimal_is_figures(index);
    lemma_figures_lack_braces(count);
    lemma_lacking_the_first(count, token);
    lemma_lacking_the_first("| "@, token);
    let r1 = "| "@ + count;
    lemma_field_behind("| "@, ' ', count);
    let r2 = r1 + " | "@;
    lemma_fixed_behind(r1, " | "@);
    assert(r2.last() == ' ');
    let r3 = r2 + title;
    lemma_field_behind(r2, ' ', title);
    let r4 = r3 + " | "@;
    lemma_fixed_behind(r3, " | "@);
    assert(r4.last() == ' ');
    let r5 = r4 + author;
    lemma_field_behind(r4, ' ', author);
    let r6 = r5 + " | "@;
    lemma_fixed_behind(r5, " | "@);
    let r7 = r6 + "["@;
    lemma_fixed_behind(r6, "["@);
    assert(r7.last() == '[');
    let r8 = r7 + url;
    lemma_field_behind(r7, '[', url);
    let r9 = r8 + "]("@;
    lemma_fixed_behind(r8, "]("@);
    assert(r9.last() == '(');
    let r10 = r9 + url;
    lemma_field_behind(r9, '(', url);
    let r11 = r10 + ")"@;
    lemma_fixed_behind(r10, ")"@);
    let r12 = r11 + " | "@;
    lemma_fixed_behind(r11, " | "@);
    assert(r12.last() == ' ');
    let r13 = r12 + status;
    lemma_field_behind(r12, ' ', status);
    let r14 = r13 + " | "@;
    lemma_fixed_behind(r13, " | "@);
    assert(r14.last() == ' ');
    let r15 = r14 + date;
    lemma_field_behind(r14, ' ', date);
    lemma_fixed_behind(r15, " |"@);
    assert(r15 + " |"@ == row_text(index, entry, domain, author));
}

/// The reviews that are shown are reviews of the response that were not
/// deleted.
pub proof fn lemma_shown_are_not_deleted(entries: Seq<ReviewModel>)
    ensures
        shown(entries).len() <= entries.len(),
        forall|i: int|
            0 <= i < shown(entries).len() ==> status_text((#[trigger] shown(entries)[i]).state)
                is Some && entries.contains(shown(entries)[i]),
    decreases entries.len(),
{
    if entries.len() > 0 {
        let before = entries.drop_last();
        lemma_shown_are_not_deleted(before);
        assert forall|i: int| 0 <= i < shown(entries).len() implies status_text(
            (#[trigger] shown(entries)[i]).state,
        ) is Some && entries.contains(shown(entries)[i]) by {
            if i < shown(before).len() {
                assert(shown(entries)[i] == shown(before)[i]);
                let j = choose|j: int| 0 <= j < before.len() && before[j] == shown(before)[i];
                assert(entries[j] == before[j]);
            } else {
                assert(shown(entries)[i] == entries[entries.len() - 1]);
            }
        }
    }
}

/// Where neither a title nor a project's key, nor the domain, nor the
/// author's name holds the placeholder for the rows, the declaration holds
/// none of the four placeholders.
pub proof fn lemma_declaration_has_no_placeholder(
    entries: Seq<ReviewModel>,
    month: MonthModel,
    percent: int,
    domain: Seq<char>,
    author: Seq<char>,
)
    requires
        !occurs_in(domain, ROWS_TOKEN@),
        !occurs_in(author, ROWS_TOKEN@),
        forall|i: int|
            0 <= i < entries.len() ==> !occurs_in((#[trigger] entries[i]).title, ROWS_TOKEN@)
                && !occurs_in(entries[i].project_key, ROWS_TOKEN@),
    ensures
        !occurs_in(declaration_text(entries, month, percent, domain, author), ROWS_TOKEN@),
        !occurs_in(declaration_text(entries, month, percent, domain, author), MONTH_TOKEN@),
        !occurs_in(declaration_text(entries, month, percent, domain, author), PERCENT_TOKEN@),
        !occurs_in(declaration_text(entries, month, percent, domain, author), LAST_DAY_TOKEN@),
{
    let kept = shown(entries);
    let rows = rows_of(entries, domain, author);
    lemma_shown_are_not_deleted(entries);
    assert forall|i: int| 0 <= i < rows.len() implies !occurs_in(
        #[trigger] rows[i],
        ROWS_TOKEN@,
    ) by {
        let entry = kept[i];
        let j = choose|j: int| 0 <= j < entries.len() && entries[j] == entry;
        assert(!occurs_in(entries[j].title, ROWS_TOKEN@));
        lemma_row_stays_free(i + 1, entry, domain, author);
    }
    reveal_strlit("\n");
    reveal_strlit("{prs}");
    lemma_tokens_are_placeholders();
    assert(foreign('\n', ROWS_TOKEN@));
    lemma_joined_stays_free(rows, "\n"@, ROWS_TOKEN@);
    lemma_declaration_placeholders(entries, month, percent, domain, author);
}

/// Where neither a title nor a project's key, nor the domain, nor the
/// author's name holds an opening brace, the declaration holds none of the
/// four placeholders.
pub proof fn lemma_plain_declaration_has_no_placeholder(
    entries: Seq<ReviewModel>,
    month: MonthModel,
    percent: int,
    domain: Seq<char>,
    author: Seq<char>,
)
    requires
        lacks(domain, '{'),
        lacks(author, '{'),
        forall|i: int|
            0 <= i < entries.len() ==> lacks((#[trigger] entries[i]).title, '{') && lacks(
                entries[i].project_key,
                '{',
            ),
    ensures
        !occurs_in(declaration_text(entries, month, percent, domain, author), ROWS_TOKEN@),
        !occurs_in(declaration_text(entries, month, percent, domain, author), MONTH_TOKEN@),
        !occurs_in(declaration_text(entries, month, percent, domain, author), PERCENT_TOKEN@),
        !occurs_in(declaration_text(entries, month, percent, domain, author), LAST_DAY_TOKEN@),
{
    lemma_tokens_are_placeholders();
    lemma_lacking_the_first(domain, ROWS_TOKEN@);
    lemma_lacking_the_first(author, ROWS_TOKEN@);
    assert forall|i: int| 0 <= i < entries.len() implies !occurs_in(
        (#[trigger] entries[i]).title,
        ROWS_TOKEN@,
    ) && !occurs_in(entries[i].project_key, ROWS_TOKEN@) by {
        lemma_lacking_the_first(entries[i].title, ROWS_TOKEN@);
        lemma_lacking_the_first(entries[i].project_key, ROWS_TOKEN@);
    }
    lemma_declaration_has_no_placeholder(entries, month, percent, domain, author);
}

/// Without reviews the table has no rows, and the declaration is the fixed
/// text of the template with the month, the percentage and the last day of
/// the month in their places.
pub proof fn lemma_declaration_without_reviews(
    month: MonthModel,
    percent: int,
    domain: Seq<char>,
    author: Seq<char>,
)
    ensures
        rows_of(Seq::empty(), domain, author) == Seq::<Seq<char>>::empty(),
        declaration_text(Seq::empty(), month, percent, domain, author) == fixed_part(0)
            + month.last_day().day_month_year_text() + fixed_part(1)
            + month.last_day().day_month_year_text() + fixed_part(2)
            + month.first_day().month_year_text() + fixed_part(3) + fixed_part(4) + decimal_text(
            percent,
        ) + fixed_part(5) + decimal_text(percent) + fixed_part(6) + decimal_text(percent)
            + fixed_part(7),
{
    let none = Seq::<char>::empty();
    let month_text = month.first_day().month_year_text();
    let last_day = month.last_day().day_month_year_text();
    assert(rows_of(Seq::empty(), domain, author) =~= Seq::<Seq<char>>::empty());
    lemma_date_texts_are_figures(month.first_day());
    lemma_date_texts_are_figures(month.last_day());
    lemma_decimal_is_figures(percent);
    lemma_figures_lack_braces(month_text);
    lemma_figures_lack_braces(decimal_text(percent));
    lemma_figures_lack_braces(last_day);
    lemma_document_keeps_template(none, month_text, decimal_text(percent), last_day);
    assert(filled_rows(none, month_text, decimal_text(percent), last_day) =~= none);
    assert(fixed_part(0) + last_day + fixed_part(1) + last_day + fixed_part(2) + month_text
        + fixed_part(3) + none =~= fixed_part(0) + last_day + fixed_part(1) + last_day
        + fixed_part(2) + month_text + fixed_part(3));
}

/// The address at which the review `number` of the project can be read.
pub fn review_url(domain: &str, project_key: &str, number: i32) -> (url: String)
    ensures
        url@ == review_url_text(domain@, project_key@, number as int),
{
    let mut url = String::from_str("https://");
    url.append(domain);
    url.append("/p/");
    url.append(project_key);
    url.append("/reviews/");
    push_decimal(&mut url, number as i64);
    url
}

/// What the table shows for a state; `None` for a deleted review.
pub fn status_label(state: ReviewState) -> (label: Option<&'static str>)
    ensures
        label is Some <==> status_text(state) is Some,
        label matches Some(text) ==> Some(text@) == status_text(state),
{
    match state {
        ReviewState::Opened => Some("Unfinished"),
        ReviewState::Closed => Some("Finished"),
        ReviewState::Deleted => None,
    }
}

/// A title as it stands in a table cell.
pub fn escape_title(title: &str) -> (cell: String)
    ensures
        cell@ == escaped_title(title@),
{
    replace_all(title, "|", "\\|")
}

/// The table row of `pr` under the row number `index`; `None` for a deleted
/// review.
pub fn render_pr(index: usize, pr: &ReviewEntry, domain: &str, author: &str) -> (row: Option<String>)
    ensures
        row is None <==> pr.state is Deleted,
        row matches Some(text) ==> text@ == row_text(index as int, pr@, domain@, author@),
{
    let status = match status_label(pr.state) {
        Some(status) => status,
        None => {
            return None;
        },
    };
    let url = review_url(domain, pr.project.key.as_str(), pr.number);
    let title = escape_title(pr.title.as_str());
    let creation_date = pr.created_at.date().day_month_year();
    let mut row = String::from_str("| ");
    push_natural(&mut row, index as u64);
    row.append(" | ");
    row.append(title.as_str());
    row.append(" | ");
    row.append(author);
    row.append(" | ");
    row.append("[");
    row.append(url.as_str());
    row.append("](");
    row.append(url.as_str());
    row.append(")");
    row.append(" | ");
    row.append(status);
    row.append(" | ");
    row.append(creation_date.as_str());
    row.append(" |");
    Some(row)
}

/// The table rows of `prs`, in their order: none for a deleted review, and the
/// others numbered from 1 without gaps.
pub fn render_rows(prs: &Vec<ReviewEntry>, domain: &str, author: &str) -> (rows: Vec<String>)
    ensures
        texts(rows@) == rows_of(models(prs@), domain@, author@),
{
    let mut rows: Vec<String> = Vec::new();
    let mut i: usize = 0;
    assert(models(prs@.take(0)) =~= Seq::<ReviewModel>::empty());
    assert(texts(rows@) =~= rows_of(models(prs@.take(0)), domain@, author@));
    while i < prs.len()
        invariant
            i <= prs.len(),
            rows@.len() == shown(models(prs@.take(i as int))).len(),
            rows@.len() <= i,
            texts(rows@) == rows_of(models(prs@.take(i as int)), domain@, author@),
        decreases prs.len() - i,
    {
        let ghost before = models(prs@.take(i as int));
        let ghost after = models(prs@.take(i + 1));
        let ghost old_rows = texts(rows@);
        proof {
            assert(after.drop_last() =~= before);
            assert(after.last() == prs@[i as int]@);
        }
        match render_pr(rows.len() + 1, &prs[i], domain, author) {
            Some(row) => {
                rows.push(row);
                proof {
                    assert(shown(after) == shown(before).push(prs@[i as int]@));
                    assert(texts(rows@) =~= old_rows.push(row@));
                    assert(texts(rows@) =~= rows_of(after, domain@, author@));
                }
            },
            None => {
                proof {
                    assert(shown(after) == shown(before));
                }
            },
        }
        i += 1;
    }
    assert(prs@.take(prs@.len() as int) =~= prs@);
    rows
}

/// The declaration for `month`: the template with one row for each review of
/// `prs` that was not deleted, the month, `percent_creative` and the last day
/// of the month in place of the placeholders.
pub fn render_template(
    prs: &Vec<ReviewEntry>,
    month: &MonthSpec,
    percent_creative: i32,
    space_domain: &str,
    user_name: &str,
) -> (document: String)
    ensures
        document@ == declaration_text(
            models(prs@),
            month@,
            percent_creative as int,
            space_domain@,
            user_name@,
        ),
{
    let rows = render_rows(prs, space_domain, user_name);
    let table = join_lines(&rows, "\n");
    let last_day = month.end_date().day_month_year();
    let month_text = month.month_year();
    let percent = decimal(percent_creative as i64);
    fill_template(table.as_str(), month_text.as_str(), percent.as_str(), last_day.as_str())
}

/// The template with the four values in place of their placeholders.
pub fn fill_template(rows: &str, month: &str, percent: &str, last_day: &str) -> (document: String)
    ensures
        document@ == document_text(rows@, month@, percent@, last_day@),
{
    let template = chars_of(TEMPLATE);
    let with_rows = replace_chars(&template, &chars_of(ROWS_TOKEN), &chars_of(rows));
    let with_month = replace_chars(&with_rows, &chars_of(MONTH_TOKEN), &chars_of(month));
    let with_percent = replace_chars(&with_month, &chars_of(PERCENT_TOKEN), &chars_of(percent));
    let filled = replace_chars(&with_percent, &chars_of(LAST_DAY_TOKEN), &chars_of(last_day));
    string_of(&filled)
}

} // verus!
