//! The dictionary's records and the SQL text used to read them: the
//! `pyhz` table holds one row per (character, pinyin) pair, with the
//! character stored as its upper-case hexadecimal code point.

use vstd::prelude::*;
use crate::hex::{radix16_u32, decoded_code, hanzi_from_unicode, hex_upper, unicode_hex};
use crate::text::push_i64;
use crate::text::decimal_int;
use crate::text::{chars_of, push_char};

verus! {

/// A submitted character form: the character to look up.
#[derive(Debug, PartialEq, Eq)]
pub struct CharData {
    pub carac: String,
}

/// A submitted pinyin form, and also a row holding one pinyin.
#[derive(Debug, PartialEq, Eq)]
pub struct PinyinData {
    pub pinyin_ton: String,
}

/// One dictionary entry as shown to the user.
#[derive(Debug, PartialEq, Eq)]
pub struct Zi {
    pub id: i64,
    pub pinyin_ton: String,
    pub unicode: String,
    pub hanzi: char,
    pub sens: String,
    pub strokes: i64,
}

/// One row of the `pyhz` table.
#[derive(Debug, PartialEq, Eq)]
pub struct DBidzi {
    pub id: i64,
    pub pinyin_ton: String,
    pub unicode: String,
    pub sens: String,
    pub strokes: i64,
}

/// A submitted hanzi string to parse.
#[derive(Debug, PartialEq, Eq)]
pub struct ZiStrData {
    pub zistr: String,
}

/// The query that reads every column of the dictionary table.
pub const DIC_BASE_QUERY: &'static str = "SELECT id, pinyin_ton, unicode, sens, strokes FROM pyhz";

/// The query that lists the whole dictionary.
pub const LISTDIC_QUERY: &'static str = "SELECT id, pinyin_ton, unicode, sens, strokes FROM pyhz ORDER BY pinyin_ton, strokes, unicode";

/// The dictionary query restricted by `whereclause`, or unrestricted when the
/// clause is empty.
pub open spec fn dic_query_text(whereclause: Seq<char>) -> Seq<char> {
    if whereclause.len() == 0 {
        DIC_BASE_QUERY@
    } else {
        DIC_BASE_QUERY@ + " WHERE "@ + whereclause
    }
}

/// The clause that selects the entries of the character with hexadecimal
/// code `code`, by pinyin.
pub open spec fn zi_clause_text(code: Seq<char>) -> Seq<char> {
    " unicode = '"@ + code + "' ORDER BY pinyin_ton"@
}

/// Whether `c` is a tone digit `0` to `4`.
pub open spec fn is_tone_digit(c: char) -> bool {
    0x30 <= c as u32 && c as u32 <= 0x34
}

/// The clause that selects the entries of a pinyin syllable: with its tone
/// when `first` ends with a tone digit, else with any of the five tones.
/// `None` for an empty syllable.
pub open spec fn py_clause_text(first: Seq<char>) -> Option<Seq<char>> {
    if first.len() == 0 {
        None
    } else if is_tone_digit(first.last()) {
        Some(" pinyin_ton = '"@ + first + "' ORDER BY strokes, unicode"@)
    } else {
        Some(
            " pinyin_ton = '"@ + first + "0' OR pinyin_ton = '"@ + first
                + "1' OR pinyin_ton = '"@ + first + "2' OR pinyin_ton = '"@ + first
                + "3' OR pinyin_ton = '"@ + first
                + "4' ORDER BY strokes, pinyin_ton, unicode"@,
        )
    }
}

/// The query for all pinyin of the character with hexadecimal code `code`.
pub open spec fn pinyin_query_text(code: Seq<char>) -> Seq<char> {
    "SELECT pinyin_ton FROM pyhz WHERE unicode = '"@ + code + "' ORDER BY pinyin_ton ASC"@
}

/// The dictionary query for `whereclause` (empty: the whole table).
pub fn dic_query(whereclause: &str) -> (res: String)
    ensures
        res@ == dic_query_text(whereclause@),
{
    let mut q = String::from_str(DIC_BASE_QUERY);
    if !whereclause.is_empty() {
        q.append(" WHERE ");
        q.append(whereclause);
    }
    q
}

/// The clause selecting the entries of the character whose hexadecimal code
/// is `code`.
pub fn zi_whereclause(code: &str) -> (res: String)
    ensures
        res@ == zi_clause_text(code@),
{
    let mut q = String::from_str(" unicode = '");
    q.append(code);
    q.append("' ORDER BY pinyin_ton");
    q
}

/// The clause selecting the entries of the pinyin syllable `first`
/// (`None` when `first` is empty).
pub fn py_whereclause(first: &str) -> (res: Option<String>)
    ensures
        res matches Some(q) ==> py_clause_text(first@) == Some(q@),
        res is None <==> py_clause_text(first@) is None,
{
    let chars = chars_of(first);
    if chars.len() == 0 {
        return None;
    }
    let last = chars[chars.len() - 1];
    let v = last as u32;
    let mut q = String::from_str(" pinyin_ton = '");
    if 0x30 <= v && v <= 0x34 {
        q.append(first);
        q.append("' ORDER BY strokes, unicode");
    } else {
        q.append(first);
        q.append("0' OR pinyin_ton = '");
        q.append(first);
        q.append("1' OR pinyin_ton = '");
        q.append(first);
        q.append("2' OR pinyin_ton = '");
        q.append(first);
        q.append("3' OR pinyin_ton = '");
        q.append(first);
        q.append("4' ORDER BY strokes, pinyin_ton, unicode");
    }
    Some(q)
}

/// Law: the dictionary query names the columns of `pyhz`, and adds the
/// clause after ` WHERE ` only when there is one.
pub proof fn dic_query_shape(whereclause: Seq<char>)
    ensures
        whereclause.len() == 0 ==> dic_query_text(whereclause)
            == "SELECT id, pinyin_ton, unicode, sens, strokes FROM pyhz"@,
        whereclause.len() > 0 ==> dic_query_text(whereclause)
            == "SELECT id, pinyin_ton, unicode, sens, strokes FROM pyhz"@ + " WHERE "@ + whereclause,
{
}

/// Law: a character's entries are selected by its code in the `unicode`
/// column, its pinyin likewise, and the quiz line by its offset.
pub proof fn lookups_select_by_code(code: Seq<char>, offset: i64)
    ensures
        zi_clause_text(code) == " unicode = '"@ + code + "' ORDER BY pinyin_ton"@,
        pinyin_query_text(code) == "SELECT pinyin_ton FROM pyhz WHERE unicode = '"@ + code
            + "' ORDER BY pinyin_ton ASC"@,
        line_query_text(offset) == "SELECT id, pinyin_ton, unicode, sens, strokes FROM pyhz"@
            + " LIMIT 1 OFFSET "@ + decimal_int(offset as int),
{
}

/// Law: a syllable ending in a tone digit `0` to `4` is looked up with
/// exactly that tone: the clause compares `pinyin_ton` with the syllable
/// itself.
pub proof fn py_clause_keeps_given_tone(first: Seq<char>)
    requires
        first.len() > 0,
        first.last() == '0' || first.last() == '1' || first.last() == '2' || first.last() == '3'
            || first.last() == '4',
    ensures
        py_clause_text(first) == Some(" pinyin_ton = '"@ + first + "' ORDER BY strokes, unicode"@),
{
}

proof fn lemma_same_code(a: char, b: char)
    requires
        a as u32 == b as u32,
    ensures
        a == b,
{
}

/// Law: a syllable that does not end in a tone digit `0` to `4` is looked
/// up with each of the five tones appended.
pub proof fn py_clause_tries_five_tones(first: Seq<char>)
    requires
        first.len() > 0,
        first.last() != '0' && first.last() != '1' && first.last() != '2' && first.last() != '3'
            && first.last() != '4',
    ensures
        py_clause_text(first) == Some(
            " pinyin_ton = '"@ + first + "0' OR pinyin_ton = '"@ + first
                + "1' OR pinyin_ton = '"@ + first + "2' OR pinyin_ton = '"@ + first
                + "3' OR pinyin_ton = '"@ + first
                + "4' ORDER BY strokes, pinyin_ton, unicode"@,
        ),
{
    let c = first.last();
    assert(!is_tone_digit(c)) by {
        let v = c as u32;
        if v == 0x30 {
            lemma_same_code(c, '0');
        } else if v == 0x31 {
            lemma_same_code(c, '1');
        } else if v == 0x32 {
            lemma_same_code(c, '2');
        } else if v == 0x33 {
            lemma_same_code(c, '3');
        } else if v == 0x34 {
            lemma_same_code(c, '4');
        }
    }
}

/// Law: an empty syllable has no clause.
pub proof fn py_clause_of_empty_syllable()
    ensures
        py_clause_text(Seq::<char>::empty()) is None,
{
}

/// The query for the pinyin of character `c`, in ascending order.
pub fn zi_pinyin_query(c: char) -> (res: String)
    ensures
        res@ == pinyin_query_text(hex_upper(c as nat)),
{
    let code = unicode_hex(c);
    let mut q = String::from_str("SELECT pinyin_ton FROM pyhz WHERE unicode = '");
    q.append(code.as_str());
    q.append("' ORDER BY pinyin_ton ASC");
    q
}

/// The query for the single entry at line `offset` of the table.
pub open spec fn line_query_text(offset: i64) -> Seq<char> {
    DIC_BASE_QUERY@ + " LIMIT 1 OFFSET "@ + decimal_int(offset as int)
}

/// The query for the single entry at line `offset` of the table (the quiz
/// draws its character this way).
pub fn line_query(offset: i64) -> (res: String)
    ensures
        res@ == line_query_text(offset),
{
    let mut q = String::from_str(DIC_BASE_QUERY);
    q.append(" LIMIT 1 OFFSET ");
    push_i64(&mut q, offset);
    q
}

/// Law: an entry made from a row keeps the row's id, pinyin, code,
/// meaning and stroke count, and its character is the one whose code the
/// row holds.
pub proof fn entry_copies_row(z: Zi, r: DBidzi)
    requires
        zi_of_row(z, r),
        row_decodes(r),
    ensures
        z.id == r.id,
        z.pinyin_ton == r.pinyin_ton,
        z.unicode == r.unicode,
        z.sens == r.sens,
        z.strokes == r.strokes,
        radix16_u32(r.unicode@) == Some(z.hanzi as u32),
{
}

/// Whether a row's `unicode` field is the hexadecimal code of a character.
pub open spec fn row_decodes(r: DBidzi) -> bool {
    decoded_code(r.unicode@) is Some
}

/// `z` is the entry that row `r` describes: the same fields, and the
/// character whose code the row's `unicode` field holds.
pub open spec fn zi_of_row(z: Zi, r: DBidzi) -> bool {
    &&& z.id == r.id
    &&& z.pinyin_ton == r.pinyin_ton
    &&& z.unicode == r.unicode
    &&& z.sens == r.sens
    &&& z.strokes == r.strokes
    &&& z.hanzi == (decoded_code(r.unicode@)->0) as char
}

/// The entry that one dictionary row describes, or `None` when its `unicode`
/// field does not name a character.
pub fn zi_from_row(r: &DBidzi) -> (res: Option<Zi>)
    ensures
        res is Some <==> row_decodes(*r),
        res matches Some(z) ==> zi_of_row(z, *r),
{
    match hanzi_from_unicode(r.unicode.as_str()) {
        Some(c) => Some(
            Zi {
                id: r.id,
                pinyin_ton: r.pinyin_ton.clone(),
                unicode: r.unicode.clone(),
                hanzi: c,
                sens: r.sens.clone(),
                strokes: r.strokes,
            },
        ),
        None => None,
    }
}

/// The entries that the rows describe, in the same order; `None` when some
/// row's `unicode` field does not name a character.
pub fn zis_from_rows(rows: &Vec<DBidzi>) -> (res: Option<Vec<Zi>>)
    ensures
        res is Some <==> (forall|i: int| 0 <= i < rows@.len() ==> row_decodes(#[trigger] rows@[i])),
        res matches Some(v) ==> v@.len() == rows@.len() && (forall|i: int|
            0 <= i < rows@.len() ==> zi_of_row(#[trigger] v@[i], rows@[i])),
{
    let mut out: Vec<Zi> = Vec::new();
    let mut i: usize = 0;
    while i < rows.len()
        invariant
            i <= rows@.len(),
            out@.len() == i,
            forall|j: int| 0 <= j < i ==> row_decodes(#[trigger] rows@[j]),
            forall|j: int| 0 <= j < i ==> zi_of_row(#[trigger] out@[j], rows@[j]),
        decreases rows@.len() - i,
    {
        match zi_from_row(&rows[i]) {
            Some(z) => out.push(z),
            None => return None,
        }
        i = i + 1;
    }
    Some(out)
}

/// The pinyin that the rows hold, in the same order.
pub fn pinyins_from_rows(rows: &Vec<PinyinData>) -> (res: Vec<String>)
    ensures
        res@.len() == rows@.len(),
        forall|i: int| 0 <= i < rows@.len() ==> #[trigger] res@[i] == rows@[i].pinyin_ton,
{
    let mut out: Vec<String> = Vec::new();
    let mut i: usize = 0;
    while i < rows.len()
        invariant
            i <= rows@.len(),
            out@.len() == i,
            forall|j: int| 0 <= j < i ==> #[trigger] out@[j] == rows@[j].pinyin_ton,
        decreases rows@.len() - i,
    {
        out.push(rows[i].pinyin_ton.clone());
        i = i + 1;
    }
    out
}

/// The button that adds character `c` to the text being written.
pub open spec fn candidate_button(c: char) -> Seq<char> {
    "<button class='zilistbutton' onclick='add(\""@ + seq![c] + "\")'>"@ + seq![c] + "</button>"@
}

/// One button per entry, in order.
pub open spec fn candidate_buttons_text(zis: Seq<Zi>) -> Seq<char>
    decreases zis.len(),
{
    if zis.len() == 0 {
        Seq::empty()
    } else {
        candidate_buttons_text(zis.drop_last()) + candidate_button(zis.last().hanzi)
    }
}

/// Law: adding an entry at the end adds, at the end of the candidate list,
/// the button of that entry's own character; so the k-th button carries the
/// k-th entry's character.
pub proof fn candidate_buttons_push(zis: Seq<Zi>, z: Zi)
    ensures
        candidate_buttons_text(zis.push(z)) == candidate_buttons_text(zis) + candidate_button(z.hanzi),
{
    assert(zis.push(z).drop_last() =~= zis);
    assert(zis.push(z).last() == z);
}

/// Law: the button of a character adds that character and shows it.
pub proof fn candidate_button_shows_its_char(c: char)
    ensures
        candidate_button(c) == "<button class='zilistbutton' onclick='add(\""@ + seq![c] + "\")'>"@
            + seq![c] + "</button>"@,
{
}

/// Law: the candidate list is empty exactly when there is no entry.
pub proof fn candidate_buttons_empty_iff_no_entry(zis: Seq<Zi>)
    ensures
        candidate_buttons_text(zis).len() == 0 <==> zis.len() == 0,
{
    if zis.len() > 0 {
        assert(candidate_button(zis.last().hanzi).len() >= 1);
    }
}

/// How many times the closing tag `</button>` occurs in `s`.
pub open spec fn count_closing_tags(s: Seq<char>) -> nat
    decreases s.len(),
{
    if s.len() == 0 {
        0
    } else {
        count_closing_tags(s.drop_first()) + if s.len() >= 9 && s.take(9) == "</button>"@ {
            1nat
        } else {
            0nat
        }
    }
}

proof fn lemma_count_short(s: Seq<char>)
    requires
        s.len() < 9,
    ensures
        count_closing_tags(s) == 0,
    decreases s.len(),
{
    if s.len() > 0 {
        lemma_count_short(s.drop_first());
    }
}

proof fn lemma_count_no_slash(s: Seq<char>)
    requires
        forall|i: int| 0 <= i < s.len() ==> s[i] != '/',
    ensures
        count_closing_tags(s) == 0,
    decreases s.len(),
{
    reveal_strlit("</button>");
    if s.len() > 0 {
        assert forall|i: int| 0 <= i < s.drop_first().len() implies s.drop_first()[i] != '/' by {
            assert(s.drop_first()[i] == s[i + 1]);
        }
        lemma_count_no_slash(s.drop_first());
        if s.len() >= 9 {
            assert(s.take(9)[1] == s[1]);
        }
    }
}

/// No `<` among the last eight characters of `a`: no closing tag can start
/// there, so none straddles `a` and what follows.
pub open spec fn no_open_in_tail(a: Seq<char>) -> bool {
    forall|p: int| 0 <= p < a.len() && a.len() - 8 <= p ==> a[p] != '<'
}

proof fn lemma_count_concat(a: Seq<char>, b: Seq<char>)
    requires
        no_open_in_tail(a),
    ensures
        count_closing_tags(a + b) == count_closing_tags(a) + count_closing_tags(b),
    decreases a.len(),
{
    reveal_strlit("</button>");
    if a.len() == 0 {
        assert(a + b =~= b);
    } else {
        assert((a + b).drop_first() =~= a.drop_first() + b);
        assert(no_open_in_tail(a.drop_first())) by {
            assert forall|p: int|
                0 <= p < a.drop_first().len() && a.drop_first().len() - 8 <= p implies a.drop_first()[p]
                != '<' by {
                assert(a.drop_first()[p] == a[p + 1]);
            }
        }
        lemma_count_concat(a.drop_first(), b);
        if a.len() >= 9 {
            assert((a + b).take(9) =~= a.take(9));
        } else {
            assert((a + b)[0] == a[0]);
            if (a + b).len() >= 9 {
                assert((a + b).take(9)[0] == a[0]);
            }
        }
    }
}

proof fn lemma_count_button(c: char)
    ensures
        count_closing_tags(candidate_button(c)) == 1,
{
    reveal_strlit("<button class='zilistbutton' onclick='add(\"");
    reveal_strlit("\")'>");
    reveal_strlit("</button>");
    let pre = "<button class='zilistbutton' onclick='add(\""@;
    let mid = "\")'>"@;
    let close = "</button>"@;
    let r3 = seq![c] + close;
    let r2 = mid + r3;
    let r1 = seq![c] + r2;
    assert(candidate_button(c) =~= pre + r1);
    // the closing tag itself
    lemma_count_short(close.drop_first());
    assert(close.take(9) =~= close);
    assert(count_closing_tags(close) == 1);
    // a character before it cannot start another one
    assert(r3.drop_first() =~= close);
    assert(r3.take(9)[1] == close[0]);
    assert(count_closing_tags(r3) == 1);
    // the middle has no slash and no opening bracket
    lemma_count_no_slash(mid);
    lemma_count_concat(mid, r3);
    assert(count_closing_tags(r2) == 1);
    // the character after the prefix is followed by a quote
    assert(r1.drop_first() =~= r2);
    assert(r1.len() >= 9 ==> r1.take(9)[1] == mid[0]);
    assert(count_closing_tags(r1) == 1);
    lemma_count_no_slash(pre);
    lemma_count_concat(pre, r1);
}

proof fn lemma_buttons_tail(zis: Seq<Zi>)
    ensures
        no_open_in_tail(candidate_buttons_text(zis)),
{
    reveal_strlit("</button>");
    if zis.len() > 0 {
        let t = candidate_buttons_text(zis);
        let close = "</button>"@;
        let front = candidate_buttons_text(zis.drop_last())
            + "<button class='zilistbutton' onclick='add(\""@ + seq![zis.last().hanzi] + "\")'>"@
            + seq![zis.last().hanzi];
        assert(t =~= front + close);
        assert forall|p: int| 0 <= p < t.len() && t.len() - 8 <= p implies t[p] != '<' by {
            assert(t[p] == close[p - front.len()]);
        }
    }
}

/// Law: the candidate list holds one closing `</button>` tag per entry.
pub proof fn candidate_buttons_one_tag_per_entry(zis: Seq<Zi>)
    ensures
        count_closing_tags(candidate_buttons_text(zis)) == zis.len(),
    decreases zis.len(),
{
    if zis.len() == 0 {
        assert(candidate_buttons_text(zis).len() == 0);
    } else {
        candidate_buttons_one_tag_per_entry(zis.drop_last());
        lemma_buttons_tail(zis.drop_last());
        lemma_count_concat(
            candidate_buttons_text(zis.drop_last()),
            candidate_button(zis.last().hanzi),
        );
        lemma_count_button(zis.last().hanzi);
    }
}

/// The candidate list offered for a pinyin: one button per entry, each
/// adding that entry's character; empty when there is no entry.
pub fn candidate_buttons(zis: &Vec<Zi>) -> (res: String)
    ensures
        res@ == candidate_buttons_text(zis@),
{
    let mut out = String::new();
    let mut i: usize = 0;
    while i < zis.len()
        invariant
            i <= zis@.len(),
            out@ == candidate_buttons_text(zis@.take(i as int)),
        decreases zis@.len() - i,
    {
        let c = zis[i].hanzi;
        let ghost before = out@;
        out.append("<button class='zilistbutton' onclick='add(\"");
        push_char(&mut out, c);
        out.append("\")'>");
        push_char(&mut out, c);
        out.append("</button>");
        proof {
            let t = zis@.take(i + 1);
            assert(t.drop_last() =~= zis@.take(i as int));
            assert(t.last() == zis@[i as int]);
            assert(out@ =~= before + candidate_button(c));
        }
        i = i + 1;
    }
    assert(zis@.take(zis@.len() as int) =~= zis@);
    out
}

} // verus!
