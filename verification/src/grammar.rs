//! The grammar engine: lexical and structural rules for one `VEVENT`
//! block, evaluated against the whole input string.
//!
//! Every rule has a specification-level matcher that maps a character
//! sequence and a start position to the position just past the matched
//! span (or `None` when the rule does not match there), and an
//! executable matcher proved equal to it.  A rule application succeeds
//! only when the rule consumes the entire input.

use vstd::prelude::*;

verus! {

use crate::error::ParseError;
use vstd::string::StrSliceExecFns;
use vstd::string::StringExecFns;

/// The closed set of character classes the lexical rules draw from.
#[derive(Clone, Copy)]
pub enum CharClass {
    /// A decimal digit `0`–`9`.
    Digit,
    /// An ASCII letter of either case or a decimal digit.
    LetterOrDigit,
    /// A character allowed in a free-text value: a letter, a digit, a
    /// space, a tab, or one of a small set of title punctuation marks.
    Text,
    /// A character allowed in a `UID` token: a letter, a digit, `.`,
    /// `_`, or `@`.
    Uid,
    /// A character allowed on either side of the `@` in an email
    /// address: a letter, a digit, `.`, or `_`.
    Email,
}

/// One character in the decimal digit range `0`–`9`.
pub open spec fn is_digit_char(c: char) -> bool {
    48 <= c as u32 <= 57
}

/// One ASCII letter, upper or lower case.
pub open spec fn is_letter_char(c: char) -> bool {
    65 <= c as u32 <= 90 || 97 <= c as u32 <= 122
}

/// One free-text character: letter, digit, space, tab, or title
/// punctuation (`* . , - _ ! ? ( ) '`).
pub open spec fn is_text_char(c: char) -> bool {
    ||| is_letter_char(c)
    ||| is_digit_char(c)
    ||| c == ' '
    ||| c == '\t'
    ||| c == '*'
    ||| c == '.'
    ||| c == ','
    ||| c == '-'
    ||| c == '_'
    ||| c == '!'
    ||| c == '?'
    ||| c == '('
    ||| c == ')'
    ||| c == '\''
}

/// One `UID` token character.
pub open spec fn is_uid_char(c: char) -> bool {
    is_letter_char(c) || is_digit_char(c) || c == '.' || c == '_' || c == '@'
}

/// One email local-part or domain character.
pub open spec fn is_email_char(c: char) -> bool {
    is_letter_char(c) || is_digit_char(c) || c == '.' || c == '_'
}

/// Whether character `c` belongs to class `k`.
pub open spec fn class_holds(k: CharClass, c: char) -> bool {
    match k {
        CharClass::Digit => is_digit_char(c),
        CharClass::LetterOrDigit => is_letter_char(c) || is_digit_char(c),
        CharClass::Text => is_text_char(c),
        CharClass::Uid => is_uid_char(c),
        CharClass::Email => is_email_char(c),
    }
}

fn letter_char(c: char) -> (b: bool)
    ensures
        b == is_letter_char(c),
{
    let u = c as u32;
    (65 <= u && u <= 90) || (97 <= u && u <= 122)
}

fn digit_char(c: char) -> (b: bool)
    ensures
        b == is_digit_char(c),
{
    let u = c as u32;
    48 <= u && u <= 57
}

fn text_char(c: char) -> (b: bool)
    ensures
        b == is_text_char(c),
{
    letter_char(c) || digit_char(c) || c == ' ' || c == '\t' || c == '*' || c == '.' || c == ','
        || c == '-' || c == '_' || c == '!' || c == '?' || c == '(' || c == ')' || c == '\''
}

fn class_check(k: CharClass, c: char) -> (b: bool)
    ensures
        b == class_holds(k, c),
{
    match k {
        CharClass::Digit => digit_char(c),
        CharClass::LetterOrDigit => letter_char(c) || digit_char(c),
        CharClass::Text => text_char(c),
        CharClass::Uid => letter_char(c) || digit_char(c) || c == '.' || c == '_' || c == '@',
        CharClass::Email => letter_char(c) || digit_char(c) || c == '.' || c == '_',
    }
}

/// The end of the longest run of class-`k` characters starting at
/// `pos`: every character in `s[pos..run_end]` belongs to `k`, and the
/// run stops at the first character that does not (or at the end of
/// the input).
pub open spec fn run_end(s: Seq<char>, pos: int, k: CharClass) -> int
    decreases s.len() - pos,
{
    if pos < s.len() && class_holds(k, s[pos]) {
        run_end(s, pos + 1, k)
    } else {
        pos
    }
}

pub proof fn lemma_run_end(s: Seq<char>, pos: int, k: CharClass)
    requires
        0 <= pos <= s.len(),
    ensures
        pos <= run_end(s, pos, k) <= s.len(),
        forall|j: int| pos <= j < run_end(s, pos, k) ==> class_holds(k, #[trigger] s[j]),
        run_end(s, pos, k) < s.len() ==> !class_holds(k, s[run_end(s, pos, k)]),
    decreases s.len() - pos,
{
    if pos < s.len() && class_holds(k, s[pos]) {
        lemma_run_end(s, pos + 1, k);
    }
}

/// Scans the longest run of class-`k` characters starting at `pos`.
fn scan_run(s: &Vec<char>, pos: usize, k: CharClass) -> (end: usize)
    requires
        pos <= s.len(),
    ensures
        end as int == run_end(s@, pos as int, k),
        pos <= end <= s.len(),
{
    proof {
        lemma_run_end(s@, pos as int, k);
    }
    let mut i = pos;
    while i < s.len() && class_check(k, s[i])
        invariant
            pos <= i <= s.len(),
            run_end(s@, pos as int, k) == run_end(s@, i as int, k),
        decreases s.len() - i,
    {
        i = i + 1;
    }
    i
}

/// Matches the literal `lit` at `pos`: succeeds exactly when `lit` is
/// the next `lit.len()` characters of `s`, consuming them.
pub open spec fn lit_match(s: Seq<char>, pos: int, lit: Seq<char>) -> Option<int> {
    if pos + lit.len() <= s.len() && s.subrange(pos, pos + lit.len() as int) == lit {
        Some(pos + lit.len() as int)
    } else {
        None
    }
}

fn match_lit(s: &Vec<char>, pos: usize, lit: &str) -> (r: Option<usize>)
    requires
        pos <= s.len(),
    ensures
        match r {
            Some(e) => lit_match(s@, pos as int, lit@) == Some(e as int) && pos <= e <= s.len(),
            None => lit_match(s@, pos as int, lit@) is None,
        },
{
    let n = lit.unicode_len();
    if n > s.len() - pos {
        return None;
    }
    let mut j: usize = 0;
    while j < n
        invariant
            0 <= j <= n,
            pos + n <= s.len(),
            n == lit@.len(),
            forall|i: int| 0 <= i < j ==> s@[pos + i] == lit@[i],
        decreases n - j,
    {
        if s[pos + j] != lit.get_char(j) {
            proof {
                assert(s@.subrange(pos as int, pos + lit@.len() as int)[j as int] == s@[pos + j]);
            }
            return None;
        }
        j = j + 1;
    }
    proof {
        assert(s@.subrange(pos as int, pos + lit@.len() as int) =~= lit@);
    }
    Some(pos + n)
}

/// The named productions of the event grammar.
#[derive(Clone, Copy, PartialEq, Eq, Structural, Debug)]
#[allow(non_camel_case_types)]
pub enum Rule {
    new_line,
    digit,
    letter_or_digit,
    string_value,
    string_in_quotes,
    datetime,
    email_address,
    status_value,
    transp_value,
    begin,
    dtstart,
    dtend,
    dtstamp,
    uid,
    created,
    last_modified,
    sequence,
    status,
    summary,
    transp,
    end,
    event,
}

/// A single line-terminator character.
pub open spec fn match_new_line_at(s: Seq<char>, pos: int) -> Option<int> {
    if pos < s.len() && s[pos] == '\n' {
        Some(pos + 1)
    } else {
        None
    }
}

/// Exactly one character of class `k`.
pub open spec fn match_one_at(s: Seq<char>, pos: int, k: CharClass) -> Option<int> {
    if pos < s.len() && class_holds(k, s[pos]) {
        Some(pos + 1)
    } else {
        None
    }
}

/// One or more characters of class `k`, matched greedily.
pub open spec fn match_run1_at(s: Seq<char>, pos: int, k: CharClass) -> Option<int> {
    if run_end(s, pos, k) > pos {
        Some(run_end(s, pos, k))
    } else {
        None
    }
}

/// The `datetime` token: eight digits, `T`, six digits, `Z`.
pub open spec fn match_datetime_at(s: Seq<char>, pos: int) -> Option<int> {
    if pos + 16 <= s.len() && (forall|j: int| pos <= j < pos + 8 ==> is_digit_char(#[trigger] s[j]))
        && s[pos + 8] == 'T' && (forall|j: int|
        pos + 9 <= j < pos + 15 ==> is_digit_char(#[trigger] s[j])) && s[pos + 15] == 'Z' {
        Some(pos + 16)
    } else {
        None
    }
}

/// An email address: one or more local-part characters, `@`, one or
/// more domain characters.
pub open spec fn match_email_at(s: Seq<char>, pos: int) -> Option<int> {
    match match_run1_at(s, pos, CharClass::Email) {
        Some(p) => if p < s.len() && s[p] == '@' {
            match_run1_at(s, p + 1, CharClass::Email)
        } else {
            None
        },
        None => None,
    }
}

/// A free-text value enclosed in double quotes on each side.
pub open spec fn match_string_in_quotes_at(s: Seq<char>, pos: int) -> Option<int> {
    if pos < s.len() && s[pos] == '"' {
        match match_run1_at(s, pos + 1, CharClass::Text) {
            Some(p) => if p < s.len() && s[p] == '"' {
                Some(p + 1)
            } else {
                None
            },
            None => None,
        }
    } else {
        None
    }
}

/// One of the literal status tokens `CONFIRMED`, `TENTATIVE`,
/// `CANCELLED`, tried in that order.
pub open spec fn match_status_value_at(s: Seq<char>, pos: int) -> Option<int> {
    if lit_match(s, pos, "CONFIRMED"@) is Some {
        lit_match(s, pos, "CONFIRMED"@)
    } else if lit_match(s, pos, "TENTATIVE"@) is Some {
        lit_match(s, pos, "TENTATIVE"@)
    } else {
        lit_match(s, pos, "CANCELLED"@)
    }
}

/// One of the literal transparency tokens `OPAQUE`, `TRANSPARENT`,
/// `TRANSP`, tried in that order (longest alternatives first, so that
/// `TRANSPARENT` is never cut short by its prefix `TRANSP`).
pub open spec fn match_transp_value_at(s: Seq<char>, pos: int) -> Option<int> {
    if lit_match(s, pos, "OPAQUE"@) is Some {
        lit_match(s, pos, "OPAQUE"@)
    } else if lit_match(s, pos, "TRANSPARENT"@) is Some {
        lit_match(s, pos, "TRANSPARENT"@)
    } else {
        lit_match(s, pos, "TRANSP"@)
    }
}

/// The index, among the ten field lines of an event, of each field
/// rule, in the fixed order the grammar demands.
pub open spec fn field_rule(i: int) -> Rule {
    if i == 0 {
        Rule::dtstart
    } else if i == 1 {
        Rule::dtend
    } else if i == 2 {
        Rule::dtstamp
    } else if i == 3 {
        Rule::uid
    } else if i == 4 {
        Rule::created
    } else if i == 5 {
        Rule::last_modified
    } else if i == 6 {
        Rule::sequence
    } else if i == 7 {
        Rule::status
    } else if i == 8 {
        Rule::summary
    } else {
        Rule::transp
    }
}

/// The label (including the colon) that opens the `i`-th field line.
pub open spec fn field_label(i: int) -> Seq<char> {
    if i == 0 {
        "DTSTART:"@
    } else if i == 1 {
        "DTEND:"@
    } else if i == 2 {
        "DTSTAMP:"@
    } else if i == 3 {
        "UID:"@
    } else if i == 4 {
        "CREATED:"@
    } else if i == 5 {
        "LAST-MODIFIED:"@
    } else if i == 6 {
        "SEQUENCE:"@
    } else if i == 7 {
        "STATUS:"@
    } else if i == 8 {
        "SUMMARY:"@
    } else {
        "TRANSP:"@
    }
}

/// The value rule of the `i`-th field: a datetime for the five date
/// fields, a token run for `UID`, digits for `SEQUENCE`, the status
/// enumeration, free text for `SUMMARY`, the transparency enumeration.
pub open spec fn match_field_value_at(i: int, s: Seq<char>, pos: int) -> Option<int> {
    if i == 3 {
        match_run1_at(s, pos, CharClass::Uid)
    } else if i == 6 {
        match_run1_at(s, pos, CharClass::Digit)
    } else if i == 7 {
        match_status_value_at(s, pos)
    } else if i == 8 {
        match_run1_at(s, pos, CharClass::Text)
    } else if i == 9 {
        match_transp_value_at(s, pos)
    } else {
        match_datetime_at(s, pos)
    }
}

/// The `i`-th structural field rule: its label followed by its value
/// rule.
pub open spec fn match_field_at(i: int, s: Seq<char>, pos: int) -> Option<int> {
    match lit_match(s, pos, field_label(i)) {
        Some(p) => match_field_value_at(i, s, p),
        None => None,
    }
}

/// The position just past the first `j` field lines of an event (each
/// line followed by its terminator), when fields `0..j` all match
/// starting from `p0`.
pub open spec fn fields_end(j: int, s: Seq<char>, p0: int) -> Option<int>
    decreases j,
{
    if j <= 0 {
        Some(p0)
    } else {
        match fields_end(j - 1, s, p0) {
            Some(p) => match match_field_at(j - 1, s, p) {
                Some(q) => match_new_line_at(s, q),
                None => None,
            },
            None => None,
        }
    }
}

/// The position just past the `BEGIN:VEVENT` line and its terminator.
pub open spec fn event_body_start(s: Seq<char>, pos: int) -> Option<int> {
    match lit_match(s, pos, "BEGIN:VEVENT"@) {
        Some(p) => match_new_line_at(s, p),
        None => None,
    }
}

/// The top-level `event` rule: the begin line, the ten field lines in
/// the fixed order, each followed by a line terminator, then the end
/// line.
pub open spec fn match_event_at(s: Seq<char>, pos: int) -> Option<int> {
    match event_body_start(s, pos) {
        Some(p0) => match fields_end(10, s, p0) {
            Some(p) => lit_match(s, p, "END:VEVENT"@),
            None => None,
        },
        None => None,
    }
}

/// The matcher of each named rule, as a specification: the position
/// just past the span matched at `pos`, or `None`.
pub open spec fn match_rule_at(r: Rule, s: Seq<char>, pos: int) -> Option<int> {
    match r {
        Rule::new_line => match_new_line_at(s, pos),
        Rule::digit => match_one_at(s, pos, CharClass::Digit),
        Rule::letter_or_digit => match_one_at(s, pos, CharClass::LetterOrDigit),
        Rule::string_value => match_run1_at(s, pos, CharClass::Text),
        Rule::string_in_quotes => match_string_in_quotes_at(s, pos),
        Rule::datetime => match_datetime_at(s, pos),
        Rule::email_address => match_email_at(s, pos),
        Rule::status_value => match_status_value_at(s, pos),
        Rule::transp_value => match_transp_value_at(s, pos),
        Rule::begin => lit_match(s, pos, "BEGIN:VEVENT"@),
        Rule::dtstart => match_field_at(0, s, pos),
        Rule::dtend => match_field_at(1, s, pos),
        Rule::dtstamp => match_field_at(2, s, pos),
        Rule::uid => match_field_at(3, s, pos),
        Rule::created => match_field_at(4, s, pos),
        Rule::last_modified => match_field_at(5, s, pos),
        Rule::sequence => match_field_at(6, s, pos),
        Rule::status => match_field_at(7, s, pos),
        Rule::summary => match_field_at(8, s, pos),
        Rule::transp => match_field_at(9, s, pos),
        Rule::end => lit_match(s, pos, "END:VEVENT"@),
        Rule::event => match_event_at(s, pos),
    }
}

/// A rule application accepts an input exactly when the rule matches
/// at the start and consumes the whole input.
pub open spec fn rule_full_match(r: Rule, s: Seq<char>) -> bool {
    match_rule_at(r, s, 0) == Some(s.len() as int)
}

/// The start of the `i`-th field's value token within a matching
/// event: just past that field's label.
pub open spec fn event_token_start(s: Seq<char>, i: int) -> int {
    fields_end(i, s, event_body_start(s, 0)->0)->0 + field_label(i).len()
}

/// The end of the `i`-th field's value token within a matching event:
/// the end of that field line's match.
pub open spec fn event_token_end(s: Seq<char>, i: int) -> int {
    match_field_at(i, s, fields_end(i, s, event_body_start(s, 0)->0)->0)->0
}

/// The verbatim value token of the `i`-th field of a matching event.
pub open spec fn event_value_token(s: Seq<char>, i: int) -> Seq<char> {
    s.subrange(event_token_start(s, i), event_token_end(s, i))
}

/// The datetime shape, stated directly: sixteen characters — eight
/// digits, a literal `T`, six digits, a literal `Z`.
pub open spec fn is_datetime_shape(s: Seq<char>) -> bool {
    &&& s.len() == 16
    &&& forall|j: int| 0 <= j < 8 ==> is_digit_char(#[trigger] s[j])
    &&& s[8] == 'T'
    &&& forall|j: int| 9 <= j < 15 ==> is_digit_char(#[trigger] s[j])
    &&& s[15] == 'Z'
}

/// Law: the `datetime` rule accepts exactly the strings of the
/// datetime shape — every string of that shape matches, with the
/// matched span equal to the whole input, and every other string
/// (wrong digit counts, missing `T` or `Z`, extra characters) is
/// rejected.
pub proof fn lemma_datetime_rule_correct(s: Seq<char>)
    ensures
        rule_full_match(Rule::datetime, s) <==> is_datetime_shape(s),
{
}

/// Law: the `status_value` rule accepts exactly the three literal
/// status tokens `CONFIRMED`, `TENTATIVE` and `CANCELLED`, and rejects
/// every other string.
pub proof fn lemma_status_value_rule_correct(s: Seq<char>)
    ensures
        rule_full_match(Rule::status_value, s) <==> (s == "CONFIRMED"@ || s == "TENTATIVE"@ || s
            == "CANCELLED"@),
{
    reveal_strlit("CONFIRMED");
    reveal_strlit("TENTATIVE");
    reveal_strlit("CANCELLED");
    assert(s.subrange(0, s.len() as int) =~= s);
}

pub(crate) fn to_char_vec(s: &str) -> (v: Vec<char>)
    ensures
        v@ == s@,
{
    let n = s.unicode_len();
    let mut v: Vec<char> = Vec::new();
    let mut i: usize = 0;
    while i < n
        invariant
            i <= n,
            n == s@.len(),
            v@ =~= s@.take(i as int),
        decreases n - i,
    {
        let c = s.get_char(i);
        v.push(c);
        proof {
            assert(v@ =~= s@.take(i + 1));
        }
        i = i + 1;
    }
    proof {
        assert(v@ =~= s@);
    }
    v
}

/// Compares two string slices character by character.
pub(crate) fn str_eq(a: &str, b: &str) -> (r: bool)
    ensures
        r == (a@ == b@),
{
    let na = a.unicode_len();
    let nb = b.unicode_len();
    if na != nb {
        return false;
    }
    let mut i: usize = 0;
    while i < na
        invariant
            i <= na,
            na == a@.len(),
            na == b@.len(),
            forall|j: int| 0 <= j < i ==> a@[j] == b@[j],
        decreases na - i,
    {
        if a.get_char(i) != b.get_char(i) {
            return false;
        }
        i = i + 1;
    }
    proof {
        assert(a@ =~= b@);
    }
    true
}

fn match_new_line(s: &Vec<char>, pos: usize) -> (r: Option<usize>)
    requires
        pos <= s.len(),
    ensures
        match r {
            Some(e) => match_new_line_at(s@, pos as int) == Some(e as int) && pos <= e <= s.len(),
            None => match_new_line_at(s@, pos as int) is None,
        },
{
    if pos < s.len() && s[pos] == '\n' {
        Some(pos + 1)
    } else {
        None
    }
}

fn match_one(s: &Vec<char>, pos: usize, k: CharClass) -> (r: Option<usize>)
    requires
        pos <= s.len(),
    ensures
        match r {
            Some(e) => match_one_at(s@, pos as int, k) == Some(e as int) && pos <= e <= s.len(),
            None => match_one_at(s@, pos as int, k) is None,
        },
{
    if pos < s.len() && class_check(k, s[pos]) {
        Some(pos + 1)
    } else {
        None
    }
}

fn match_run1(s: &Vec<char>, pos: usize, k: CharClass) -> (r: Option<usize>)
    requires
        pos <= s.len(),
    ensures
        match r {
            Some(e) => match_run1_at(s@, pos as int, k) == Some(e as int) && pos <= e <= s.len(),
            None => match_run1_at(s@, pos as int, k) is None,
        },
{
    let e = scan_run(s, pos, k);
    if e > pos {
        Some(e)
    } else {
        None
    }
}

fn match_datetime(s: &Vec<char>, pos: usize) -> (r: Option<usize>)
    requires
        pos <= s.len(),
    ensures
        match r {
            Some(e) => match_datetime_at(s@, pos as int) == Some(e as int) && pos <= e <= s.len(),
            None => match_datetime_at(s@, pos as int) is None,
        },
{
    if s.len() - pos < 16 {
        return None;
    }
    let mut j: usize = 0;
    while j < 8
        invariant
            j <= 8,
            pos + 16 <= s.len(),
            forall|i: int| pos <= i < pos + j ==> is_digit_char(#[trigger] s@[i]),
        decreases 8 - j,
    {
        if !digit_char(s[pos + j]) {
            return None;
        }
        j = j + 1;
    }
    if s[pos + 8] != 'T' {
        return None;
    }
    let mut j: usize = 0;
    while j < 6
        invariant
            j <= 6,
            pos + 16 <= s.len(),
            forall|i: int| pos + 9 <= i < pos + 9 + j ==> is_digit_char(#[trigger] s@[i]),
        decreases 6 - j,
    {
        if !digit_char(s[pos + 9 + j]) {
            return None;
        }
        j = j + 1;
    }
    if s[pos + 15] != 'Z' {
        return None;
    }
    Some(pos + 16)
}

fn match_email(s: &Vec<char>, pos: usize) -> (r: Option<usize>)
    requires
        pos <= s.len(),
    ensures
        match r {
            Some(e) => match_email_at(s@, pos as int) == Some(e as int) && pos <= e <= s.len(),
            None => match_email_at(s@, pos as int) is None,
        },
{
    match match_run1(s, pos, CharClass::Email) {
        Some(p) => {
            if p < s.len() && s[p] == '@' {
                match_run1(s, p + 1, CharClass::Email)
            } else {
                None
            }
        },
        None => None,
    }
}

fn match_string_in_quotes(s: &Vec<char>, pos: usize) -> (r: Option<usize>)
    requires
        pos <= s.len(),
    ensures
        match r {
            Some(e) => match_string_in_quotes_at(s@, pos as int) == Some(e as int) && pos <= e
                <= s.len(),
            None => match_string_in_quotes_at(s@, pos as int) is None,
        },
{
    if pos < s.len() && s[pos] == '"' {
        match match_run1(s, pos + 1, CharClass::Text) {
            Some(p) => {
                if p < s.len() && s[p] == '"' {
                    Some(p + 1)
                } else {
                    None
                }
            },
            None => None,
        }
    } else {
        None
    }
}

fn match_status_value(s: &Vec<char>, pos: usize) -> (r: Option<usize>)
    requires
        pos <= s.len(),
    ensures
        match r {
            Some(e) => match_status_value_at(s@, pos as int) == Some(e as int) && pos <= e
                <= s.len(),
            None => match_status_value_at(s@, pos as int) is None,
        },
{
    if let Some(e) = match_lit(s, pos, "CONFIRMED") {
        return Some(e);
    }
    if let Some(e) = match_lit(s, pos, "TENTATIVE") {
        return Some(e);
    }
    match_lit(s, pos, "CANCELLED")
}

fn match_transp_value(s: &Vec<char>, pos: usize) -> (r: Option<usize>)
    requires
        pos <= s.len(),
    ensures
        match r {
            Some(e) => match_transp_value_at(s@, pos as int) == Some(e as int) && pos <= e
                <= s.len(),
            None => match_transp_value_at(s@, pos as int) is None,
        },
{
    if let Some(e) = match_lit(s, pos, "OPAQUE") {
        return Some(e);
    }
    if let Some(e) = match_lit(s, pos, "TRANSPARENT") {
        return Some(e);
    }
    match_lit(s, pos, "TRANSP")
}

fn field_label_str(i: usize) -> (r: &'static str)
    requires
        i < 10,
    ensures
        r@ == field_label(i as int),
{
    if i == 0 {
        "DTSTART:"
    } else if i == 1 {
        "DTEND:"
    } else if i == 2 {
        "DTSTAMP:"
    } else if i == 3 {
        "UID:"
    } else if i == 4 {
        "CREATED:"
    } else if i == 5 {
        "LAST-MODIFIED:"
    } else if i == 6 {
        "SEQUENCE:"
    } else if i == 7 {
        "STATUS:"
    } else if i == 8 {
        "SUMMARY:"
    } else {
        "TRANSP:"
    }
}

fn field_rule_of(i: usize) -> (r: Rule)
    requires
        i < 10,
    ensures
        r == field_rule(i as int),
{
    if i == 0 {
        Rule::dtstart
    } else if i == 1 {
        Rule::dtend
    } else if i == 2 {
        Rule::dtstamp
    } else if i == 3 {
        Rule::uid
    } else if i == 4 {
        Rule::created
    } else if i == 5 {
        Rule::last_modified
    } else if i == 6 {
        Rule::sequence
    } else if i == 7 {
        Rule::status
    } else if i == 8 {
        Rule::summary
    } else {
        Rule::transp
    }
}

fn match_field_value(i: usize, s: &Vec<char>, pos: usize) -> (r: Option<usize>)
    requires
        i < 10,
        pos <= s.len(),
    ensures
        match r {
            Some(e) => match_field_value_at(i as int, s@, pos as int) == Some(e as int) && pos <= e
                <= s.len(),
            None => match_field_value_at(i as int, s@, pos as int) is None,
        },
{
    if i == 3 {
        match_run1(s, pos, CharClass::Uid)
    } else if i == 6 {
        match_run1(s, pos, CharClass::Digit)
    } else if i == 7 {
        match_status_value(s, pos)
    } else if i == 8 {
        match_run1(s, pos, CharClass::Text)
    } else if i == 9 {
        match_transp_value(s, pos)
    } else {
        match_datetime(s, pos)
    }
}

fn match_field(i: usize, s: &Vec<char>, pos: usize) -> (r: Option<usize>)
    requires
        i < 10,
        pos <= s.len(),
    ensures
        match r {
            Some(e) => match_field_at(i as int, s@, pos as int) == Some(e as int) && pos <= e
                <= s.len(),
            None => match_field_at(i as int, s@, pos as int) is None,
        },
{
    match match_lit(s, pos, field_label_str(i)) {
        Some(p) => match_field_value(i, s, p),
        None => None,
    }
}

proof fn lemma_fields_end_none(j: int, k: int, s: Seq<char>, p0: int)
    requires
        0 <= j <= k,
        fields_end(j, s, p0) is None,
    ensures
        fields_end(k, s, p0) is None,
    decreases k - j,
{
    if j < k {
        lemma_fields_end_none(j, k - 1, s, p0);
    }
}

/// Matches the whole `event` rule starting at position 0, and on
/// success returns the end of the match together with the value-token
/// span of each of the ten fields.
fn match_event(s: &Vec<char>) -> (r: Option<(usize, Vec<(usize, usize)>)>)
    ensures
        match r {
            Some(t) => {
                &&& match_event_at(s@, 0) == Some(t.0 as int)
                &&& t.0 <= s.len()
                &&& t.1@.len() == 10
                &&& forall|i: int|
                    0 <= i < 10 ==> (#[trigger] t.1@[i]).0 as int == event_token_start(s@, i)
                        && t.1@[i].1 as int == event_token_end(s@, i) && t.1@[i].0 <= t.1@[i].1
                        <= s.len()
            },
            None => match_event_at(s@, 0) is None,
        },
{
    let p = match match_lit(s, 0, "BEGIN:VEVENT") {
        Some(p) => p,
        None => {
            return None;
        },
    };
    let p0 = match match_new_line(s, p) {
        Some(p0) => p0,
        None => {
            return None;
        },
    };
    let mut spans: Vec<(usize, usize)> = Vec::new();
    let mut pos = p0;
    let mut i: usize = 0;
    while i < 10
        invariant
            i <= 10,
            pos <= s.len(),
            event_body_start(s@, 0) == Some(p0 as int),
            fields_end(i as int, s@, p0 as int) == Some(pos as int),
            spans@.len() == i,
            forall|j: int|
                0 <= j < i ==> (#[trigger] spans@[j]).0 as int == event_token_start(s@, j)
                    && spans@[j].1 as int == event_token_end(s@, j) && spans@[j].0 <= spans@[j].1
                    <= s.len(),
        decreases 10 - i,
    {
        let vs = match match_lit(s, pos, field_label_str(i)) {
            Some(vs) => vs,
            None => {
                proof {
                    lemma_fields_end_none(i + 1, 10, s@, p0 as int);
                }
                return None;
            },
        };
        let ve = match match_field_value(i, s, vs) {
            Some(ve) => ve,
            None => {
                proof {
                    lemma_fields_end_none(i + 1, 10, s@, p0 as int);
                }
                return None;
            },
        };
        let np = match match_new_line(s, ve) {
            Some(np) => np,
            None => {
                proof {
                    lemma_fields_end_none(i + 1, 10, s@, p0 as int);
                }
                return None;
            },
        };
        spans.push((vs, ve));
        pos = np;
        i = i + 1;
    }
    match match_lit(s, pos, "END:VEVENT") {
        Some(e) => Some((e, spans)),
        None => None,
    }
}

fn match_rule0(r: Rule, s: &Vec<char>) -> (res: Option<usize>)
    ensures
        match res {
            Some(e) => match_rule_at(r, s@, 0) == Some(e as int) && e <= s.len(),
            None => match_rule_at(r, s@, 0) is None,
        },
{
    match r {
        Rule::new_line => match_new_line(s, 0),
        Rule::digit => match_one(s, 0, CharClass::Digit),
        Rule::letter_or_digit => match_one(s, 0, CharClass::LetterOrDigit),
        Rule::string_value => match_run1(s, 0, CharClass::Text),
        Rule::string_in_quotes => match_string_in_quotes(s, 0),
        Rule::datetime => match_datetime(s, 0),
        Rule::email_address => match_email(s, 0),
        Rule::status_value => match_status_value(s, 0),
        Rule::transp_value => match_transp_value(s, 0),
        Rule::begin => match_lit(s, 0, "BEGIN:VEVENT"),
        Rule::dtstart => match_field(0, s, 0),
        Rule::dtend => match_field(1, s, 0),
        Rule::dtstamp => match_field(2, s, 0),
        Rule::uid => match_field(3, s, 0),
        Rule::created => match_field(4, s, 0),
        Rule::last_modified => match_field(5, s, 0),
        Rule::sequence => match_field(6, s, 0),
        Rule::status => match_field(7, s, 0),
        Rule::summary => match_field(8, s, 0),
        Rule::transp => match_field(9, s, 0),
        Rule::end => match_lit(s, 0, "END:VEVENT"),
        Rule::event => match match_event(s) {
            Some(t) => Some(t.0),
            None => None,
        },
    }
}

fn rule_name(r: Rule) -> &'static str {
    match r {
        Rule::new_line => "new_line",
        Rule::digit => "digit",
        Rule::letter_or_digit => "letter_or_digit",
        Rule::string_value => "string_value",
        Rule::string_in_quotes => "string_in_quotes",
        Rule::datetime => "datetime",
        Rule::email_address => "email_address",
        Rule::status_value => "status_value",
        Rule::transp_value => "transp_value",
        Rule::begin => "begin",
        Rule::dtstart => "dtstart",
        Rule::dtend => "dtend",
        Rule::dtstamp => "dtstamp",
        Rule::uid => "uid",
        Rule::created => "created",
        Rule::last_modified => "last_modified",
        Rule::sequence => "sequence",
        Rule::status => "status",
        Rule::summary => "summary",
        Rule::transp => "transp",
        Rule::end => "end",
        Rule::event => "event",
    }
}

fn syntax_error(r: Rule) -> (e: ParseError)
    ensures
        e is ParsingError,
{
    let mut m = "grammar rule did not match the whole input: ".to_owned();
    m.append(rule_name(r));
    ParseError::ParsingError(m)
}

/// One matched node of a parse tree: the rule it matched and, for a
/// field rule, the verbatim value token it carries.
pub struct Child {
    /// The rule this node matched.
    pub rule: Rule,
    /// The value token: for a field rule, the text after the label;
    /// for the begin and end lines, the line's literal text.
    pub value: String,
}

/// A successful application of one grammar rule to a whole input.
pub struct Pair {
    /// The rule that matched.
    pub rule: Rule,
    /// The matched text: the whole input, since a rule application
    /// succeeds only by consuming the input entirely.
    pub text: String,
    /// For the `event` rule, the immediate children of the parse tree:
    /// the begin line, the ten field lines in grammar order, and the
    /// end line.  Empty for every other rule.
    pub children: Vec<Child>,
}

impl Pair {
    /// The text this rule application matched.
    pub fn as_str(&self) -> (r: &str)
        ensures
            r@ == self.text@,
    {
        self.text.as_str()
    }
}

/// The grammar engine: applies one named rule to a whole input.
pub struct EventParser;

impl EventParser {
    /// Applies `rule` to `input`.  Succeeds exactly when the rule
    /// matches at the start of `input` and consumes all of it, and
    /// then returns the parse tree; for the `event` rule the tree's
    /// children carry the verbatim value token of each of the ten
    /// fields, in grammar order.
    pub fn parse(rule: Rule, input: &str) -> (r: Result<Pair, ParseError>)
        ensures
            match r {
                Ok(p) => {
                    &&& rule_full_match(rule, input@)
                    &&& p.rule == rule
                    &&& p.text@ == input@
                    &&& rule == Rule::event ==> {
                        &&& p.children@.len() == 12
                        &&& p.children@[0].rule == Rule::begin
                        &&& p.children@[11].rule == Rule::end
                        &&& forall|i: int|
                            0 <= i < 10 ==> (#[trigger] p.children@[i + 1]).rule == field_rule(i)
                                && p.children@[i + 1].value@ == event_value_token(input@, i)
                    }
                    &&& rule != Rule::event ==> p.children@.len() == 0
                },
                Err(e) => !rule_full_match(rule, input@) && e is ParsingError,
            },
{
        let chars = to_char_vec(input);
        if rule == Rule::event {
            match match_event(&chars) {
                Some((end, spans)) => {
                    if end == chars.len() {
                        let mut children: Vec<Child> = Vec::new();
                        children.push(
                            Child { rule: Rule::begin, value: "BEGIN:VEVENT".to_owned() },
                        );
                        let mut i: usize = 0;
                        while i < 10
                            invariant
                                i <= 10,
                                spans@.len() == 10,
                                forall|j: int|
                                    0 <= j < 10 ==> (#[trigger] spans@[j]).0 as int
                                        == event_token_start(input@, j) && spans@[j].1 as int
                                        == event_token_end(input@, j) && spans@[j].0 <= spans@[j].1
                                        <= input@.len(),
                                children@.len() == i + 1,
                                children@[0].rule == Rule::begin,
                                forall|j: int|
                                    0 <= j < i ==> (#[trigger] children@[j + 1]).rule
                                        == field_rule(j) && children@[j + 1].value@
                                        == event_value_token(input@, j),
                            decreases 10 - i,
                        {
                            let (vs, ve) = spans[i];
                            let val = input.substring_char(vs, ve);
                            children.push(Child { rule: field_rule_of(i), value: val.to_owned() });
                            i = i + 1;
                        }
                        children.push(Child { rule: Rule::end, value: "END:VEVENT".to_owned() });
                        Ok(Pair { rule, text: input.to_owned(), children })
                    } else {
                        Err(syntax_error(rule))
                    }
                },
                None => Err(syntax_error(rule)),
            }
        } else {
            match match_rule0(rule, &chars) {
                Some(end) => {
                    if end == chars.len() {
                        Ok(Pair { rule, text: input.to_owned(), children: Vec::new() })
                    } else {
                        Err(syntax_error(rule))
                    }
                },
                None => Err(syntax_error(rule)),
            }
        }
    }
}

} // verus!
