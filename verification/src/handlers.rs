//! What the service answers: status and size messages, candidate lists,
//! the parsing of a hanzi string into pinyin, and the quiz line choice.

use vstd::prelude::*;
use crate::dates::{chrono_utc_ymd, utc_date_ymd};
use crate::text::{chars_of, decimal_int, push_char, push_i64};

verus! {

/// The home page's status line for a dictionary of `size` entries.
pub open spec fn connection_status_text(size: i64) -> Seq<char> {
    if size > 0 {
        "Connected to database"@
    } else {
        "Could not connect to database"@
    }
}

/// The home page's status line: the database counts as connected when it
/// holds at least one entry.
pub fn connection_status(size: i64) -> (res: String)
    ensures
        res@ == connection_status_text(size),
{
    if size > 0 {
        String::from_str("Connected to database")
    } else {
        String::from_str("Could not connect to database")
    }
}

/// The size message for `size` entries last updated on `date`.
pub open spec fn size_text(size: i64, date: Seq<char>) -> Seq<char> {
    "The dictionary presently contains "@ + decimal_int(size as int) + " entries. Last updated on "@
        + date
}

/// The size message: the number of entries and the date of the last update.
pub fn size_message(size: i64, date: &str) -> (res: String)
    ensures
        res@ == size_text(size, date@),
{
    let mut s = String::from_str("The dictionary presently contains ");
    push_i64(&mut s, size);
    s.append(" entries. Last updated on ");
    s.append(date);
    s
}

/// The size message for a dictionary of `size` entries whose file was last
/// modified `modified_secs` seconds after the Unix epoch, the date being
/// the UTC calendar date; `None` where chrono has no date for that moment,
/// which is never the case within 8 * 10^12 seconds of the epoch.
pub fn size_report(size: i64, modified_secs: i64) -> (res: Option<String>)
    ensures
        res is Some <==> chrono_utc_ymd(modified_secs) is Some,
        -8_000_000_000_000 <= modified_secs <= 8_000_000_000_000 ==> res is Some,
        res matches Some(m) ==> m@ == size_text(size, chrono_utc_ymd(modified_secs)->0),
{
    match utc_date_ymd(modified_secs) {
        Some(date) => Some(size_message(size, date.as_str())),
        None => None,
    }
}

/// The answer to a cancelled form.
pub fn cancel_message() -> (res: String)
    ensures
        res@ == "Form canceled"@,
{
    String::from_str("Form canceled")
}

/// The candidate answer around a list of candidate buttons.
pub open spec fn candidate_response_text(answer: Seq<char>) -> Seq<char> {
    if answer.len() == 0 {
        "<br /><br />No hanzi available for request"@
    } else {
        "<br /><br />Select one hanzi from this list:</br>"@ + answer
    }
}

/// The answer to a candidate request: the buttons under a heading, or a
/// notice when there are none.
pub fn candidate_response(answer: &str) -> (res: String)
    ensures
        res@ == candidate_response_text(answer@),
{
    if answer.is_empty() {
        String::from_str("<br /><br />No hanzi available for request")
    } else {
        let mut resp = String::from_str("<br /><br />Select one hanzi from this list:</br>");
        resp.append(answer);
        resp
    }
}

/// The line offset of the quiz entry, `size` being the highest offset
/// (one less than the number of entries): a line number `numlin` drawn in
/// `0..=size` is kept, anything above `size` is brought back to `size`.
pub fn quiz_offset(numlin: i64, size: i64) -> (res: i64)
    ensures
        res == (if numlin > size { size } else { numlin }),
        res <= size,
        0 <= numlin <= size ==> res == numlin,
        0 <= numlin && 0 <= size ==> 0 <= res,
{
    if numlin > size {
        size
    } else {
        numlin
    }
}

/// The punctuation marks that are copied like non-Chinese text.
pub const ZI_PUNCTUATION: &'static str = "。，“”（）、《》—；：！？「」\u{2003}【】『』％‘’•";

/// Whether `c` is copied as it is rather than looked up: a character below
/// U+2000 or a punctuation mark.
pub open spec fn is_nonzi(c: char) -> bool {
    (c as u32) < 0x2000 || ZI_PUNCTUATION@.contains(c)
}

/// Whether `c` is copied as it is rather than looked up in the dictionary.
pub fn is_nonzi_char(c: char) -> (res: bool)
    ensures
        res == is_nonzi(c),
{
    if (c as u32) < 0x2000 {
        return true;
    }
    let marks = chars_of(ZI_PUNCTUATION);
    let mut i: usize = 0;
    while i < marks.len()
        invariant
            marks@ == ZI_PUNCTUATION@,
            i <= marks@.len(),
            forall|j: int| 0 <= j < i ==> marks@[j] != c,
        decreases marks@.len() - i,
    {
        if marks[i] == c {
            return true;
        }
        i = i + 1;
    }
    false
}

/// The pinyin of one character, separated by `/`.
pub open spec fn join_pinyins(pinyins: Seq<Seq<char>>) -> Seq<char>
    decreases pinyins.len(),
{
    if pinyins.len() == 0 {
        Seq::empty()
    } else if pinyins.len() == 1 {
        pinyins[0]
    } else {
        join_pinyins(pinyins.drop_last()) + "/"@ + pinyins.last()
    }
}

/// Law: one pinyin is written as it is, and each further pinyin is written
/// after a `/`; so a list of n pinyin shows all of them in order, with n - 1
/// separators.
pub proof fn join_pinyins_appends(pinyins: Seq<Seq<char>>, x: Seq<char>)
    ensures
        join_pinyins(seq![x]) == x,
        pinyins.len() > 0 ==> join_pinyins(pinyins.push(x)) == join_pinyins(pinyins) + "/"@ + x,
{
    assert(pinyins.push(x).drop_last() =~= pinyins);
    assert(seq![x][0] == x);
}

/// Law: the home page says "Connected to database" exactly for a
/// dictionary with at least one entry.
pub proof fn connection_status_by_size(size: i64)
    ensures
        size > 0 ==> connection_status_text(size) == "Connected to database"@,
        size <= 0 ==> connection_status_text(size) == "Could not connect to database"@,
{
}

/// Law: the size message writes the number of entries in decimal (see
/// `decimal_int_denotes`) between its two fixed parts, then the date.
pub proof fn size_text_shape(size: i64, date: Seq<char>)
    ensures
        size_text(size, date) == "The dictionary presently contains "@ + decimal_int(size as int)
            + " entries. Last updated on "@ + date,
{
}

/// Law: a non-empty candidate list is sent after its heading, unchanged; an
/// empty one is replaced by a notice.
pub proof fn candidate_response_shape(answer: Seq<char>)
    ensures
        answer.len() == 0 ==> candidate_response_text(answer)
            == "<br /><br />No hanzi available for request"@,
        answer.len() > 0 ==> candidate_response_text(answer)
            == "<br /><br />Select one hanzi from this list:</br>"@ + answer,
{
}

/// Law: every character below U+2000 and every listed punctuation mark is
/// copied as it is; any other character is looked up.
pub proof fn nonzi_characters(c: char)
    ensures
        (c as u32) < 0x2000 ==> is_nonzi(c),
        ZI_PUNCTUATION@.contains(c) ==> is_nonzi(c),
        (c as u32) >= 0x2000 && !ZI_PUNCTUATION@.contains(c) ==> !is_nonzi(c),
{
}

/// Law: what one character adds to the parse: a copied character is
/// appended (after three spaces when it starts a run), a character with
/// pinyin adds a space and its pinyin, and a character without pinyin adds
/// a space and itself and is listed as unknown.
pub proof fn parse_step_effect(st: ParseView, c: char, pinyins: Seq<Seq<char>>)
    ensures
        is_nonzi(c) && st.nonzi ==> parse_step(st, c, pinyins).parsed == st.parsed + seq![c],
        is_nonzi(c) && !st.nonzi ==> parse_step(st, c, pinyins).parsed == st.parsed + "   "@
            + seq![c],
        is_nonzi(c) ==> parse_step(st, c, pinyins).unknown == st.unknown && parse_step(
            st,
            c,
            pinyins,
        ).nonzi,
        !is_nonzi(c) && pinyins.len() > 0 ==> parse_step(st, c, pinyins).parsed == st.parsed + " "@
            + join_pinyins(pinyins) && parse_step(st, c, pinyins).unknown == st.unknown,
        !is_nonzi(c) && pinyins.len() == 0 ==> parse_step(st, c, pinyins).parsed == st.parsed + " "@
            + seq![c] && parse_step(st, c, pinyins).unknown == st.unknown.push(seq![c]),
        !is_nonzi(c) ==> !parse_step(st, c, pinyins).nonzi,
{
    assert(st.parsed.push(c) =~= st.parsed + seq![c]);
    assert((st.parsed + "   "@).push(c) =~= st.parsed + "   "@ + seq![c]);
    assert((st.parsed + " "@).push(c) =~= st.parsed + " "@ + seq![c]);
}

/// The state of the parse of a hanzi string, as values.
#[verifier::ext_equal]
pub struct ParseView {
    pub parsed: Seq<char>,
    pub unknown: Seq<Seq<char>>,
    pub nonzi: bool,
}

/// The state before the first character.
pub open spec fn parse_start() -> ParseView {
    ParseView { parsed: Seq::empty(), unknown: Seq::empty(), nonzi: false }
}

/// One step of the parse: character `c`, with `pinyins` the dictionary's
/// pinyin for it (only read when `c` is looked up).
/// - a non-Chinese character or punctuation mark is copied; the first of a
///   run is preceded by three spaces;
/// - a character with pinyin is replaced by a space and its pinyin joined
///   by `/`;
/// - a character without pinyin is copied after a space and recorded as
///   unknown.
pub open spec fn parse_step(st: ParseView, c: char, pinyins: Seq<Seq<char>>) -> ParseView {
    if is_nonzi(c) {
        if st.nonzi {
            ParseView { parsed: st.parsed.push(c), unknown: st.unknown, nonzi: true }
        } else {
            ParseView { parsed: (st.parsed + "   "@).push(c), unknown: st.unknown, nonzi: true }
        }
    } else if pinyins.len() > 0 {
        ParseView {
            parsed: st.parsed + " "@ + join_pinyins(pinyins),
            unknown: st.unknown,
            nonzi: false,
        }
    } else {
        ParseView {
            parsed: (st.parsed + " "@).push(c),
            unknown: st.unknown.push(seq![c]),
            nonzi: false,
        }
    }
}

/// The state after the first `n` characters of `chars`, `lookups[i]` being
/// the pinyin found for `chars[i]`.
pub open spec fn parse_prefix(chars: Seq<char>, lookups: Seq<Seq<Seq<char>>>, n: nat) -> ParseView
    decreases n,
{
    if n == 0 {
        parse_start()
    } else {
        parse_step(
            parse_prefix(chars, lookups, (n - 1) as nat),
            chars[n - 1],
            lookups[n - 1],
        )
    }
}

/// The state after all of `chars`.
pub open spec fn parse_text(chars: Seq<char>, lookups: Seq<Seq<Seq<char>>>) -> ParseView {
    parse_prefix(chars, lookups, chars.len())
}

/// The values of a list of strings.
pub open spec fn strings_view(v: Seq<String>) -> Seq<Seq<char>> {
    v.map_values(|s: String| s@)
}

/// The running parse of a hanzi string: the text built so far, the
/// characters not found in the dictionary, and whether the last character
/// was copied as it is.
pub struct ParseState {
    pub parsed: String,
    pub unknown: Vec<String>,
    pub nonzi: bool,
}

impl View for ParseState {
    type V = ParseView;

    open spec fn view(&self) -> ParseView {
        ParseView {
            parsed: self.parsed@,
            unknown: strings_view(self.unknown@),
            nonzi: self.nonzi,
        }
    }
}

fn append_pinyins(s: &mut String, pinyins: &Vec<String>)
    ensures
        final(s)@ == old(s)@ + join_pinyins(strings_view(pinyins@)),
{
    let ghost start = s@;
    let ghost all = strings_view(pinyins@);
    let mut i: usize = 0;
    while i < pinyins.len()
        invariant
            i <= pinyins@.len(),
            all == strings_view(pinyins@),
            s@ == start + join_pinyins(all.take(i as int)),
        decreases pinyins@.len() - i,
    {
        let ghost before = s@;
        if i > 0 {
            s.append("/");
        }
        s.append(pinyins[i].as_str());
        proof {
            let t = all.take(i + 1);
            assert(t.drop_last() =~= all.take(i as int));
            assert(t.last() == pinyins@[i as int]@);
            if i == 0 {
                assert(all.take(0) =~= Seq::<Seq<char>>::empty());
                assert(s@ =~= start + join_pinyins(t));
            } else {
                assert(s@ =~= start + join_pinyins(t));
            }
        }
        i = i + 1;
    }
    assert(all.take(pinyins@.len() as int) =~= all);
}

impl ParseState {
    /// The state before the first character.
    pub fn new() -> (res: ParseState)
        ensures
            res@ == parse_start(),
    {
        let res = ParseState { parsed: String::new(), unknown: Vec::new(), nonzi: false };
        assert(res@.unknown =~= Seq::<Seq<char>>::empty());
        res
    }

    /// Takes character `c`, with `pinyins` the dictionary's pinyin for it
    /// (ignored when `c` is copied as it is).
    pub fn step(&mut self, c: char, pinyins: &Vec<String>)
        ensures
            final(self)@ == parse_step(old(self)@, c, strings_view(pinyins@)),
    {
        let ghost st = self@;
        if is_nonzi_char(c) {
            if !self.nonzi {
                self.parsed.append("   ");
                self.nonzi = true;
            }
            push_char(&mut self.parsed, c);
        } else {
            self.nonzi = false;
            if pinyins.len() > 0 {
                self.parsed.append(" ");
                append_pinyins(&mut self.parsed, pinyins);
            } else {
                let mut one = String::new();
                push_char(&mut one, c);
                self.unknown.push(one);
                self.parsed.append(" ");
                push_char(&mut self.parsed, c);
                assert(self@.unknown =~= st.unknown.push(seq![c]));
            }
        }
        assert(self@.parsed =~= parse_step(st, c, strings_view(pinyins@)).parsed);
    }
}

/// Parses a whole hanzi string, `lookups[i]` being the dictionary's pinyin
/// for its `i`-th character.
pub fn parse_zistring(chain: &str, lookups: &Vec<Vec<String>>) -> (res: ParseState)
    requires
        lookups@.len() == chain@.len(),
    ensures
        res@ == parse_text(chain@, lookups@.map_values(|v: Vec<String>| strings_view(v@))),
{
    let ghost looked = lookups@.map_values(|v: Vec<String>| strings_view(v@));
    let chars = chars_of(chain);
    let mut st = ParseState::new();
    let mut i: usize = 0;
    while i < chars.len()
        invariant
            chars@ == chain@,
            lookups@.len() == chain@.len(),
            looked == lookups@.map_values(|v: Vec<String>| strings_view(v@)),
            i <= chars@.len(),
            st@ == parse_prefix(chain@, looked, i as nat),
        decreases chars@.len() - i,
    {
        st.step(chars[i], &lookups[i]);
        assert(looked[i as int] == strings_view(lookups@[i as int]@));
        i = i + 1;
    }
    st
}


/// Law: a string in which every character is copied as it is (latin text,
/// digits, punctuation) comes out as itself after three spaces, with no
/// unknown character, whatever the lookups hold.
pub proof fn parse_copies_non_chinese_text(s: Seq<char>, lookups: Seq<Seq<Seq<char>>>)
    requires
        s.len() > 0,
        forall|i: int| 0 <= i < s.len() ==> is_nonzi(#[trigger] s[i]),
    ensures
        parse_text(s, lookups).parsed == "   "@ + s,
        parse_text(s, lookups).unknown.len() == 0,
        parse_text(s, lookups).nonzi,
{
    lemma_copied_prefix(s, lookups, s.len());
    assert(s.take(s.len() as int) =~= s);
}

proof fn lemma_copied_prefix(s: Seq<char>, lookups: Seq<Seq<Seq<char>>>, n: nat)
    requires
        1 <= n <= s.len(),
        forall|i: int| 0 <= i < s.len() ==> is_nonzi(#[trigger] s[i]),
    ensures
        parse_prefix(s, lookups, n).parsed == "   "@ + s.take(n as int),
        parse_prefix(s, lookups, n).unknown.len() == 0,
        parse_prefix(s, lookups, n).nonzi,
    decreases n,
{
    assert(is_nonzi(s[n - 1]));
    assert(parse_prefix(s, lookups, n) == parse_step(
        parse_prefix(s, lookups, (n - 1) as nat),
        s[n - 1],
        lookups[n - 1],
    ));
    if n == 1 {
        assert(parse_prefix(s, lookups, 0) == parse_start());
        assert(("   "@ + Seq::<char>::empty()).push(s[0]) =~= "   "@ + s.take(1));
        assert(Seq::<char>::empty() + "   "@ =~= "   "@);
    } else {
        lemma_copied_prefix(s, lookups, (n - 1) as nat);
        assert(("   "@ + s.take(n - 1)).push(s[n - 1]) =~= "   "@ + s.take(n as int));
    }
}

/// Law: after a non-empty string, the state says whether its last
/// character was copied as it is.
pub proof fn parse_flag_follows_last_char(s: Seq<char>, lookups: Seq<Seq<Seq<char>>>)
    requires
        s.len() > 0,
    ensures
        parse_text(s, lookups).nonzi == is_nonzi(s.last()),
{
}

/// `e` is the text of a character of `s` that is looked up and has no
/// pinyin in `lookups`.
pub open spec fn is_unfound_char(s: Seq<char>, lookups: Seq<Seq<Seq<char>>>, e: Seq<char>) -> bool {
    exists|i: int|
        #![trigger s[i]]
        0 <= i < s.len() && e == seq![s[i]] && !is_nonzi(s[i]) && lookups[i].len() == 0
}

/// Law: every character reported unknown is a character of the string that
/// was looked up and had no pinyin.
pub proof fn parse_unknown_were_not_found(s: Seq<char>, lookups: Seq<Seq<Seq<char>>>)
    requires
        lookups.len() == s.len(),
    ensures
        forall|k: int|
            0 <= k < parse_text(s, lookups).unknown.len() ==> is_unfound_char(
                s,
                lookups,
                #[trigger] parse_text(s, lookups).unknown[k],
            ),
{
    lemma_unknown_sound(s, lookups, s.len());
}

proof fn lemma_unknown_sound(s: Seq<char>, lookups: Seq<Seq<Seq<char>>>, n: nat)
    requires
        n <= s.len(),
        lookups.len() == s.len(),
    ensures
        forall|k: int|
            0 <= k < parse_prefix(s, lookups, n).unknown.len() ==> is_unfound_char(
                s,
                lookups,
                #[trigger] parse_prefix(s, lookups, n).unknown[k],
            ),
    decreases n,
{
    if n == 0 {
        assert(parse_prefix(s, lookups, 0) == parse_start());
    }
    if n > 0 {
        assert(parse_prefix(s, lookups, n) == parse_step(
            parse_prefix(s, lookups, (n - 1) as nat),
            s[n - 1],
            lookups[n - 1],
        ));
        lemma_unknown_sound(s, lookups, (n - 1) as nat);
        let prev = parse_prefix(s, lookups, (n - 1) as nat);
        let cur = parse_prefix(s, lookups, n);
        assert forall|k: int| 0 <= k < cur.unknown.len() implies is_unfound_char(
            s,
            lookups,
            #[trigger] cur.unknown[k],
        ) by {
            if k < prev.unknown.len() {
                assert(cur.unknown[k] == prev.unknown[k]);
            } else {
                assert(cur.unknown[k] == seq![s[n - 1]]);
                assert(is_unfound_char(s, lookups, cur.unknown[k]));
            }
        }
    }
}

/// Law: every character of the string that is looked up and has no pinyin
/// is reported unknown.
pub proof fn parse_reports_every_unfound_char(s: Seq<char>, lookups: Seq<Seq<Seq<char>>>)
    requires
        lookups.len() == s.len(),
    ensures
        forall|i: int|
            0 <= i < s.len() && !is_nonzi(s[i]) && lookups[i].len() == 0
                ==> parse_text(s, lookups).unknown.contains(seq![#[trigger] s[i]]),
{
    lemma_unknown_complete(s, lookups, s.len());
}

proof fn lemma_unknown_complete(s: Seq<char>, lookups: Seq<Seq<Seq<char>>>, n: nat)
    requires
        n <= s.len(),
        lookups.len() == s.len(),
    ensures
        forall|i: int|
            0 <= i < n && !is_nonzi(s[i]) && lookups[i].len() == 0
                ==> parse_prefix(s, lookups, n).unknown.contains(seq![#[trigger] s[i]]),
    decreases n,
{
    if n == 0 {
        assert(parse_prefix(s, lookups, 0) == parse_start());
    }
    if n > 0 {
        assert(parse_prefix(s, lookups, n) == parse_step(
            parse_prefix(s, lookups, (n - 1) as nat),
            s[n - 1],
            lookups[n - 1],
        ));
        lemma_unknown_complete(s, lookups, (n - 1) as nat);
        let prev = parse_prefix(s, lookups, (n - 1) as nat);
        let cur = parse_prefix(s, lookups, n);
        assert forall|i: int|
            0 <= i < n && !is_nonzi(s[i]) && lookups[i].len() == 0 implies cur.unknown.contains(
            seq![#[trigger] s[i]],
        ) by {
            if i < n - 1 {
                let k = choose|k: int| 0 <= k < prev.unknown.len() && prev.unknown[k] == seq![s[i]];
                assert(cur.unknown[k] == seq![s[i]]);
            } else {
                assert(cur.unknown[cur.unknown.len() - 1] == seq![s[i]]);
            }
        }
    }
}

/// Law: when every looked-up character has pinyin, nothing is reported
/// unknown.
pub proof fn parse_all_found_no_unknown(s: Seq<char>, lookups: Seq<Seq<Seq<char>>>)
    requires
        lookups.len() == s.len(),
        forall|i: int| 0 <= i < s.len() ==> is_nonzi(#[trigger] s[i]) || lookups[i].len() > 0,
    ensures
        parse_text(s, lookups).unknown.len() == 0,
{
    lemma_all_found(s, lookups, s.len());
}

proof fn lemma_all_found(s: Seq<char>, lookups: Seq<Seq<Seq<char>>>, n: nat)
    requires
        n <= s.len(),
        lookups.len() == s.len(),
        forall|i: int| 0 <= i < s.len() ==> is_nonzi(#[trigger] s[i]) || lookups[i].len() > 0,
    ensures
        parse_prefix(s, lookups, n).unknown.len() == 0,
    decreases n,
{
    if n == 0 {
        assert(parse_prefix(s, lookups, 0) == parse_start());
    }
    if n > 0 {
        assert(parse_prefix(s, lookups, n) == parse_step(
            parse_prefix(s, lookups, (n - 1) as nat),
            s[n - 1],
            lookups[n - 1],
        ));
        assert(is_nonzi(s[n - 1]) || lookups[n - 1].len() > 0);
        lemma_all_found(s, lookups, (n - 1) as nat);
    }
}


/// The state with nothing parsed yet and the given flag.
pub open spec fn parse_flagged(nonzi: bool) -> ParseView {
    ParseView { parsed: Seq::empty(), unknown: Seq::empty(), nonzi }
}

/// The state after the characters of `s` starting from `st`, `lookups[i]`
/// being the pinyin found for `s[i]`.
pub open spec fn parse_run(st: ParseView, s: Seq<char>, lookups: Seq<Seq<Seq<char>>>) -> ParseView
    decreases s.len(),
{
    if s.len() == 0 {
        st
    } else {
        parse_run(parse_step(st, s[0], lookups[0]), s.drop_first(), lookups.drop_first())
    }
}

proof fn lemma_run_snoc(st: ParseView, s: Seq<char>, lookups: Seq<Seq<Seq<char>>>)
    requires
        s.len() >= 1,
        lookups.len() == s.len(),
    ensures
        parse_run(st, s, lookups) == parse_step(
            parse_run(st, s.drop_last(), lookups.drop_last()),
            s.last(),
            lookups.last(),
        ),
    decreases s.len(),
{
    let st1 = parse_step(st, s[0], lookups[0]);
    if s.len() == 1 {
        assert(s.drop_first().len() == 0);
        assert(s.drop_last().len() == 0);
        assert(parse_run(st1, s.drop_first(), lookups.drop_first()) == st1);
        assert(parse_run(st, s.drop_last(), lookups.drop_last()) == st);
        assert(s.last() == s[0]);
        assert(lookups.last() == lookups[0]);
    } else {
        lemma_run_snoc(st1, s.drop_first(), lookups.drop_first());
        assert(parse_run(st, s.drop_last(), lookups.drop_last()) == parse_run(
            st1,
            s.drop_last().drop_first(),
            lookups.drop_last().drop_first(),
        ));
        assert(s.drop_first().last() == s.last());
        assert(lookups.drop_first().last() == lookups.last());
        assert(s.drop_first().drop_last() =~= s.drop_last().drop_first());
        assert(lookups.drop_first().drop_last() =~= lookups.drop_last().drop_first());
        assert(s.drop_last()[0] == s[0]);
        assert(lookups.drop_last()[0] == lookups[0]);
    }
}

proof fn lemma_prefix_is_run(s: Seq<char>, lookups: Seq<Seq<Seq<char>>>, n: nat)
    requires
        n <= s.len(),
        lookups.len() == s.len(),
    ensures
        parse_prefix(s, lookups, n) == parse_run(parse_start(), s.take(n as int), lookups.take(n as int)),
    decreases n,
{
    if n == 0 {
        assert(parse_prefix(s, lookups, 0) == parse_start());
    } else {
        lemma_prefix_is_run(s, lookups, (n - 1) as nat);
        lemma_run_snoc(parse_start(), s.take(n as int), lookups.take(n as int));
        assert(s.take(n as int).drop_last() =~= s.take(n - 1));
        assert(lookups.take(n as int).drop_last() =~= lookups.take(n - 1));
        assert(parse_prefix(s, lookups, n) == parse_step(
            parse_prefix(s, lookups, (n - 1) as nat),
            s[n - 1],
            lookups[n - 1],
        ));
    }
}

proof fn lemma_text_is_run(s: Seq<char>, lookups: Seq<Seq<Seq<char>>>)
    requires
        lookups.len() == s.len(),
    ensures
        parse_text(s, lookups) == parse_run(parse_start(), s, lookups),
{
    lemma_prefix_is_run(s, lookups, s.len());
    assert(s.take(s.len() as int) =~= s);
    assert(lookups.take(s.len() as int) =~= lookups);
}

proof fn lemma_run_concat(
    st: ParseView,
    s1: Seq<char>,
    l1: Seq<Seq<Seq<char>>>,
    s2: Seq<char>,
    l2: Seq<Seq<Seq<char>>>,
)
    requires
        l1.len() == s1.len(),
        l2.len() == s2.len(),
    ensures
        parse_run(st, s1 + s2, l1 + l2) == parse_run(parse_run(st, s1, l1), s2, l2),
    decreases s1.len(),
{
    if s1.len() == 0 {
        assert(s1 + s2 =~= s2);
        assert(l1 + l2 =~= l2);
    } else {
        let st1 = parse_step(st, s1[0], l1[0]);
        lemma_run_concat(st1, s1.drop_first(), l1.drop_first(), s2, l2);
        assert((s1 + s2).drop_first() =~= s1.drop_first() + s2);
        assert((l1 + l2).drop_first() =~= l1.drop_first() + l2);
        assert((s1 + s2)[0] == s1[0]);
        assert((l1 + l2)[0] == l1[0]);
    }
}

/// The parse from any state is that state's text and unknown list followed
/// by the parse from an empty state with the same flag.
proof fn lemma_run_frame(st: ParseView, s: Seq<char>, lookups: Seq<Seq<Seq<char>>>)
    requires
        lookups.len() == s.len(),
    ensures
        parse_run(st, s, lookups) =~= (ParseView {
            parsed: st.parsed + parse_run(parse_flagged(st.nonzi), s, lookups).parsed,
            unknown: st.unknown + parse_run(parse_flagged(st.nonzi), s, lookups).unknown,
            nonzi: parse_run(parse_flagged(st.nonzi), s, lookups).nonzi,
        }),
    decreases s.len(),
{
    if s.len() == 0 {
        assert(st.parsed + Seq::<char>::empty() =~= st.parsed);
        assert(st.unknown + Seq::<Seq<char>>::empty() =~= st.unknown);
    } else {
        let f = parse_flagged(st.nonzi);
        let st1 = parse_step(st, s[0], lookups[0]);
        let f1 = parse_step(f, s[0], lookups[0]);
        let tail = s.drop_first();
        let ltail = lookups.drop_first();
        assert(st1 =~= (ParseView {
            parsed: st.parsed + f1.parsed,
            unknown: st.unknown + f1.unknown,
            nonzi: f1.nonzi,
        }));
        lemma_run_frame(st1, tail, ltail);
        lemma_run_frame(f1, tail, ltail);
        let r = parse_run(parse_flagged(f1.nonzi), tail, ltail);
        assert(st.parsed + f1.parsed + r.parsed =~= st.parsed + (f1.parsed + r.parsed));
        assert(st.unknown + f1.unknown + r.unknown =~= st.unknown + (f1.unknown + r.unknown));
    }
}

/// From an empty state, the flag only matters to the first character: a
/// copied first character gets three spaces before it when the flag is
/// down.
proof fn lemma_run_flag(s: Seq<char>, lookups: Seq<Seq<Seq<char>>>)
    requires
        lookups.len() == s.len(),
        s.len() > 0,
    ensures
        parse_run(parse_flagged(false), s, lookups).unknown == parse_run(parse_flagged(true), s, lookups).unknown,
        parse_run(parse_flagged(false), s, lookups).nonzi == parse_run(parse_flagged(true), s, lookups).nonzi,
        parse_run(parse_flagged(false), s, lookups).parsed == (if is_nonzi(s[0]) {
            "   "@ + parse_run(parse_flagged(true), s, lookups).parsed
        } else {
            parse_run(parse_flagged(true), s, lookups).parsed
        }),
{
    let tail = s.drop_first();
    let ltail = lookups.drop_first();
    let a = parse_step(parse_flagged(false), s[0], lookups[0]);
    let b = parse_step(parse_flagged(true), s[0], lookups[0]);
    lemma_run_frame(a, tail, ltail);
    lemma_run_frame(b, tail, ltail);
    assert(a.nonzi == b.nonzi);
    assert(a.unknown =~= b.unknown);
    if is_nonzi(s[0]) {
        assert(a.parsed =~= "   "@ + b.parsed);
        let r = parse_run(parse_flagged(a.nonzi), tail, ltail);
        assert(a.parsed + r.parsed =~= "   "@ + (b.parsed + r.parsed));
    } else {
        assert(a.parsed =~= b.parsed);
    }
}

/// Law: parsing a concatenation is parsing each part: the unknown lists
/// are joined, and so are the texts, except that when the first part ends
/// and the second begins with copied characters the two runs merge, so the
/// three spaces that open the second text are dropped.
pub proof fn parse_concatenation(
    s1: Seq<char>,
    l1: Seq<Seq<Seq<char>>>,
    s2: Seq<char>,
    l2: Seq<Seq<Seq<char>>>,
)
    requires
        l1.len() == s1.len(),
        l2.len() == s2.len(),
    ensures
        parse_text(s1 + s2, l1 + l2).unknown == parse_text(s1, l1).unknown + parse_text(s2, l2).unknown,
        parse_text(s1 + s2, l1 + l2).parsed == parse_text(s1, l1).parsed + (if s1.len() > 0
            && s2.len() > 0 && is_nonzi(s1.last()) && is_nonzi(s2[0]) {
            parse_text(s2, l2).parsed.skip(3)
        } else {
            parse_text(s2, l2).parsed
        }),
        parse_text(s1 + s2, l1 + l2).nonzi == (if s2.len() > 0 {
            parse_text(s2, l2).nonzi
        } else {
            parse_text(s1, l1).nonzi
        }),
{
    lemma_text_is_run(s1 + s2, l1 + l2);
    lemma_text_is_run(s1, l1);
    lemma_text_is_run(s2, l2);
    lemma_run_concat(parse_start(), s1, l1, s2, l2);
    let a = parse_text(s1, l1);
    lemma_run_frame(a, s2, l2);
    assert(parse_start() == parse_flagged(false));
    if s1.len() > 0 {
        parse_flag_follows_last_char(s1, l1);
    } else {
        assert(parse_prefix(s1, l1, 0) == parse_start());
    }
    if s2.len() == 0 {
        assert(a.parsed + Seq::<char>::empty() =~= a.parsed);
        assert(a.unknown + Seq::<Seq<char>>::empty() =~= a.unknown);
    } else if a.nonzi {
        lemma_run_flag(s2, l2);
        let t = parse_run(parse_flagged(true), s2, l2);
        if is_nonzi(s2[0]) {
            reveal_strlit("   ");
            assert(("   "@ + t.parsed).skip(3) =~= t.parsed);
        }
    }
}

} // verus!
