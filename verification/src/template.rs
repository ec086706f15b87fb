//! The text of the declaration, with its four placeholders.

use crate::placeholder::{flat, is_placeholder, lacks, occurs_at, Piece};
use vstd::prelude::*;

verus! {

/// The placeholder for the table's rows.
pub const ROWS_TOKEN: &'static str = "{prs}";

/// The placeholder for the month that the declaration concerns.
pub const MONTH_TOKEN: &'static str = "{month}";

/// The placeholder for the share of working time spent on creative work.
pub const PERCENT_TOKEN: &'static str = "{percent_creative}";

/// The placeholder for the last day of the month.
pub const LAST_DAY_TOKEN: &'static str = "{last_day_of_month}";

/// The declaration in Polish and English: a header, the table of works and the
/// employee's two declarations.
pub const TEMPLATE: &'static str = r#"
---
title: "Formularz rejestracji czasu pracy twórczej"
author: "JetBrains Poland sp. z o.o."
date: "{last_day_of_month}"
geometry: a4paper,landscape,margin=2cm
fontsize: 10pt
mainfont: DejaVu Serif
lang: pl-PL
---

Warszawa, {last_day_of_month}

# Formularz rejestracji czasu pracy twórczej i Utworów w JetBrains Poland spółka z ograniczoną odpowiedzialnością / Registration form for creative time and Works at JetBrains Poland spółka z ograniczoną odpowiedzialnością

## Dotyczy miesiąca / Concerns the month of: {month}

| Lp. | Utwór / Work | Autor / Author | Forma ustalenia / Form of the Work’s establishment | Status | Data powstania / Date of creation |
| --- | ----------------------------------------------- | ------------------- | ------------------------ | ---------------- | -------------------- |
{prs}

### Total % of actual working time spent by creative time: {percent_creative}%


## Oświadczenie Pracownika

Niniejszym potwierdzam, że według mojej najlepszej wiedzy wskazany/e wyżej utwór/utwory stanowi/ą wynik mojej działalności twórczej o indywidualnym charakterze chroniony/e przepisami ustawy z dnia 4 lutego 1994 r. O prawie autorskim i prawach pokrewnych (t.j.: Dz.U. z 2022 r., poz. 2509). Ponadto oświadczam, że w miesiącu, którego dotyczy to oświadczenie mój czas pracy kreatywnej nad tworzeniem ww. Utworu/Utworów w stosunku do całego efektywnego czasu pracy (z wyłączeniem nieobecności w pracy) wyniósł {percent_creative} procent.

## Employee’s declaration

I hereby declare that, to my best knowledge, this (these) work(s) is (are) the result of my creative activity of an individual character protected by the provisions of the Act of 4 February 1994 on Copyright and Related Rights (consolidated text: Journal of Laws of 2022, item 2509). I also declare that, in the month which this declaration concerns, I have worked creatively on creating the above Work(s) for {percent_creative} percent of the entire effective working time (i.e., excluding absences at work).
"#;

/// Where the placeholder for the rows stands in the template.
pub open spec fn rows_at() -> int {
    812
}

/// Each of the four tokens is a name between braces without a line break, and
/// no two are of the same length.
pub proof fn lemma_tokens_are_placeholders()
    ensures
        is_placeholder(ROWS_TOKEN@),
        is_placeholder(MONTH_TOKEN@),
        is_placeholder(PERCENT_TOKEN@),
        is_placeholder(LAST_DAY_TOKEN@),
        ROWS_TOKEN@.len() == 5,
        MONTH_TOKEN@.len() == 7,
        PERCENT_TOKEN@.len() == 18,
        LAST_DAY_TOKEN@.len() == 19,
        lacks(ROWS_TOKEN@, '\n'),
        lacks(MONTH_TOKEN@, '\n'),
        lacks(PERCENT_TOKEN@, '\n'),
        lacks(LAST_DAY_TOKEN@, '\n'),
{
    reveal_strlit("{prs}");
    reveal_strlit("{month}");
    reveal_strlit("{percent_creative}");
    reveal_strlit("{last_day_of_month}");
}

/// The template holds the placeholder for the rows once, with a line break
/// behind it, and an opening brace only where one of its seven placeholders
/// begins: the last day twice, the month, the rows, and the percentage three
/// times.
#[verifier::rlimit(50)]
pub proof fn lemma_template_shape()
    ensures
        TEMPLATE@.len() == 2001,
        occurs_at(TEMPLATE@, ROWS_TOKEN@, rows_at()),
        forall|at: int| occurs_at(TEMPLATE@, ROWS_TOKEN@, at) ==> at == rows_at(),
        TEMPLATE@[rows_at() + 5] == '\n',
        forall|i: int|
            0 <= i < 2001 && TEMPLATE@[i] == '{' ==> i == 102 || i == 227 || i == 516 || i == 812
                || i == 878 || i == 1435 || i == 1901,
        TEMPLATE@.subrange(102, 121) == LAST_DAY_TOKEN@,
        TEMPLATE@.subrange(227, 246) == LAST_DAY_TOKEN@,
        TEMPLATE@.subrange(516, 523) == MONTH_TOKEN@,
        TEMPLATE@.subrange(878, 896) == PERCENT_TOKEN@,
        TEMPLATE@.subrange(1435, 1453) == PERCENT_TOKEN@,
        TEMPLATE@.subrange(1901, 1919) == PERCENT_TOKEN@,
{
    reveal_strlit(
        r#"
---
title: "Formularz rejestracji czasu pracy twórczej"
author: "JetBrains Poland sp. z o.o."
date: "{last_day_of_month}"
geometry: a4paper,landscape,margin=2cm
fontsize: 10pt
mainfont: DejaVu Serif
lang: pl-PL
---

Warszawa, {last_day_of_month}

# Formularz rejestracji czasu pracy twórczej i Utworów w JetBrains Poland spółka z ograniczoną odpowiedzialnością / Registration form for creative time and Works at JetBrains Poland spółka z ograniczoną odpowiedzialnością

## Dotyczy miesiąca / Concerns the month of: {month}

| Lp. | Utwór / Work | Autor / Author | Forma ustalenia / Form of the Work’s establishment | Status | Data powstania / Date of creation |
| --- | ----------------------------------------------- | ------------------- | ------------------------ | ---------------- | -------------------- |
{prs}

### Total % of actual working time spent by creative time: {percent_creative}%


## Oświadczenie Pracownika

Niniejszym potwierdzam, że według mojej najlepszej wiedzy wskazany/e wyżej utwór/utwory stanowi/ą wynik mojej działalności twórczej o indywidualnym charakterze chroniony/e przepisami ustawy z dnia 4 lutego 1994 r. O prawie autorskim i prawach pokrewnych (t.j.: Dz.U. z 2022 r., poz. 2509). Ponadto oświadczam, że w miesiącu, którego dotyczy to oświadczenie mój czas pracy kreatywnej nad tworzeniem ww. Utworu/Utworów w stosunku do całego efektywnego czasu pracy (z wyłączeniem nieobecności w pracy) wyniósł {percent_creative} procent.

## Employee’s declaration

I hereby declare that, to my best knowledge, this (these) work(s) is (are) the result of my creative activity of an individual character protected by the provisions of the Act of 4 February 1994 on Copyright and Related Rights (consolidated text: Journal of Laws of 2022, item 2509). I also declare that, in the month which this declaration concerns, I have worked creatively on creating the above Work(s) for {percent_creative} percent of the entire effective working time (i.e., excluding absences at work).
"#,
    );
    assert(TEMPLATE@.len() == 2001);
    assert(forall|i: int|
        0 <= i < 2001 && TEMPLATE@[i] == '{' ==> i == 102 || i == 227 || i == 516 || i == 812 || i
            == 878 || i == 1435 || i == 1901);
    reveal_strlit("{prs}");
    reveal_strlit("{month}");
    reveal_strlit("{percent_creative}");
    reveal_strlit("{last_day_of_month}");
    assert(TEMPLATE@.subrange(812, 817) =~= ROWS_TOKEN@);
    assert(TEMPLATE@.subrange(102, 121) =~= LAST_DAY_TOKEN@);
    assert(TEMPLATE@.subrange(227, 246) =~= LAST_DAY_TOKEN@);
    assert(TEMPLATE@.subrange(516, 523) =~= MONTH_TOKEN@);
    assert(TEMPLATE@.subrange(878, 896) =~= PERCENT_TOKEN@);
    assert(TEMPLATE@.subrange(1435, 1453) =~= PERCENT_TOKEN@);
    assert(TEMPLATE@.subrange(1901, 1919) =~= PERCENT_TOKEN@);
    assert forall|at: int| occurs_at(TEMPLATE@, ROWS_TOKEN@, at) implies at == 812 by {
        let found = TEMPLATE@.subrange(at, at + 5);
        assert(found[0] == TEMPLATE@[at]);
        assert(found[1] == TEMPLATE@[at + 1]);
        assert(found[2] == TEMPLATE@[at + 2]);
    }
}

/// The fixed text of the template: part 0 stands before its first
/// placeholder, each further part behind the next placeholder, and part 7
/// behind the last.
pub open spec fn fixed_part(k: int) -> Seq<char> {
    if k == 0 {
        TEMPLATE@.subrange(0, 102)
    } else if k == 1 {
        TEMPLATE@.subrange(121, 227)
    } else if k == 2 {
        TEMPLATE@.subrange(246, 516)
    } else if k == 3 {
        TEMPLATE@.subrange(523, 812)
    } else if k == 4 {
        TEMPLATE@.subrange(817, 878)
    } else if k == 5 {
        TEMPLATE@.subrange(896, 1435)
    } else if k == 6 {
        TEMPLATE@.subrange(1453, 1901)
    } else {
        TEMPLATE@.subrange(1919, 2001)
    }
}

/// The template cut into its fixed parts and its placeholders, with `rows` in
/// place of the placeholder for the rows.
pub open spec fn template_pieces(rows: Seq<char>) -> Seq<Piece> {
    seq![
        Piece::Plain(fixed_part(0)),
        Piece::Token(LAST_DAY_TOKEN@),
        Piece::Plain(fixed_part(1)),
        Piece::Token(LAST_DAY_TOKEN@),
        Piece::Plain(fixed_part(2)),
        Piece::Token(MONTH_TOKEN@),
        Piece::Plain(fixed_part(3)),
        Piece::Free(rows),
        Piece::Plain(fixed_part(4)),
        Piece::Token(PERCENT_TOKEN@),
        Piece::Plain(fixed_part(5)),
        Piece::Token(PERCENT_TOKEN@),
        Piece::Plain(fixed_part(6)),
        Piece::Token(PERCENT_TOKEN@),
        Piece::Plain(fixed_part(7)),
    ]
}

/// The pieces are the template with the rows in place of their placeholder.
/// No fixed part holds an opening brace, and the part behind the rows begins
/// with a line break.
pub proof fn lemma_template_pieces(rows: Seq<char>)
    ensures
        flat(template_pieces(rows)) == TEMPLATE@.take(rows_at()) + rows + TEMPLATE@.skip(
            rows_at() + 5,
        ),
        forall|k: int| lacks(#[trigger] fixed_part(k), '{'),
        fixed_part(4).len() > 0,
        fixed_part(4)[0] == '\n',
{
    lemma_template_shape();
    lemma_tokens_are_placeholders();
    assert forall|k: int| lacks(#[trigger] fixed_part(k), '{') by {
        let part = fixed_part(k);
        assert forall|i: int| 0 <= i < part.len() implies part[i] != '{' by {
            if k == 0 {
                assert(part[i] == TEMPLATE@[i]);
            } else if k == 1 {
                assert(part[i] == TEMPLATE@[i + 121]);
            } else if k == 2 {
                assert(part[i] == TEMPLATE@[i + 246]);
            } else if k == 3 {
                assert(part[i] == TEMPLATE@[i + 523]);
            } else if k == 4 {
                assert(part[i] == TEMPLATE@[i + 817]);
            } else if k == 5 {
                assert(part[i] == TEMPLATE@[i + 896]);
            } else if k == 6 {
                assert(part[i] == TEMPLATE@[i + 1453]);
            } else {
                assert(part[i] == TEMPLATE@[i + 1919]);
            }
        }
    }
    assert(fixed_part(4)[0] == TEMPLATE@[817]);
    let pieces = template_pieces(rows);
    lemma_flat_of_fifteen(pieces);
    let behind = fixed_part(4) + PERCENT_TOKEN@ + fixed_part(5) + PERCENT_TOKEN@ + fixed_part(6)
        + PERCENT_TOKEN@ + fixed_part(7);
    let before = fixed_part(0) + LAST_DAY_TOKEN@ + fixed_part(1) + LAST_DAY_TOKEN@ + fixed_part(2)
        + MONTH_TOKEN@ + fixed_part(3);
    assert(behind =~= TEMPLATE@.skip(817));
    assert(before =~= TEMPLATE@.take(812));
    assert(flat(pieces) =~= before + rows + behind);
}

/// Fifteen pieces one behind the other.
pub proof fn lemma_flat_of_fifteen(pieces: Seq<Piece>)
    requires
        pieces.len() == 15,
    ensures
        flat(pieces) == pieces[0].text() + pieces[1].text() + pieces[2].text() + pieces[3].text()
            + pieces[4].text() + pieces[5].text() + pieces[6].text() + pieces[7].text()
            + pieces[8].text() + pieces[9].text() + pieces[10].text() + pieces[11].text()
            + pieces[12].text() + pieces[13].text() + pieces[14].text(),
{
    lemma_flat_from(pieces, 15);
    lemma_flat_from(pieces, 14);
    lemma_flat_from(pieces, 13);
    lemma_flat_from(pieces, 12);
    lemma_flat_from(pieces, 11);
    lemma_flat_from(pieces, 10);
    lemma_flat_from(pieces, 9);
    lemma_flat_from(pieces, 8);
    lemma_flat_from(pieces, 7);
    lemma_flat_from(pieces, 6);
    lemma_flat_from(pieces, 5);
    lemma_flat_from(pieces, 4);
    lemma_flat_from(pieces, 3);
    lemma_flat_from(pieces, 2);
    lemma_flat_from(pieces, 1);
    lemma_flat_from(pieces, 0);
    assert(pieces.skip(0) =~= pieces);
    assert(flat(pieces) =~= pieces[0].text() + pieces[1].text() + pieces[2].text()
        + pieces[3].text() + pieces[4].text() + pieces[5].text() + pieces[6].text()
        + pieces[7].text() + pieces[8].text() + pieces[9].text() + pieces[10].text()
        + pieces[11].text() + pieces[12].text() + pieces[13].text() + pieces[14].text());
}

/// The pieces from place `from` on begin with the piece at that place.
proof fn lemma_flat_from(pieces: Seq<Piece>, from: int)
    requires
        0 <= from <= pieces.len(),
    ensures
        from == pieces.len() ==> flat(pieces.skip(from)) == Seq::<char>::empty(),
        from < pieces.len() ==> flat(pieces.skip(from)) == pieces[from].text() + flat(
            pieces.skip(from + 1),
        ),
{
    if from < pieces.len() {
        assert(pieces.skip(from).skip(1) =~= pieces.skip(from + 1));
    }
}

} // verus!
