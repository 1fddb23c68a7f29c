//! The event extractor: walks the parse tree of one matched `event`
//! and builds the field mapping, and applies the per-block failure
//! policy over a batch of blocks.

use vstd::prelude::*;

verus! {

use crate::error::ParseError;
use crate::grammar::{event_value_token, field_rule, rule_full_match, EventParser, Rule};
use vstd::string::StringExecFns;

/// The canonical output key of the `i`-th field of an event, in
/// grammar order.  Spelled with an underscore where the source label
/// has a hyphen (`LAST-MODIFIED` maps to `LAST_MODIFIED`).
pub open spec fn canonical_name(i: int) -> Seq<char> {
    if i == 0 {
        "DTSTART"@
    } else if i == 1 {
        "DTEND"@
    } else if i == 2 {
        "DTSTAMP"@
    } else if i == 3 {
        "UID"@
    } else if i == 4 {
        "CREATED"@
    } else if i == 5 {
        "LAST_MODIFIED"@
    } else if i == 6 {
        "SEQUENCE"@
    } else if i == 7 {
        "STATUS"@
    } else if i == 8 {
        "SUMMARY"@
    } else {
        "TRANSP"@
    }
}

/// The field mapping of a matching event block: the ten canonical
/// names, each paired with the verbatim value token that followed its
/// field's label.
pub open spec fn event_mapping(s: Seq<char>) -> Seq<(Seq<char>, Seq<char>)> {
    Seq::new(10, |i: int| (canonical_name(i), event_value_token(s, i)))
}

/// Law: the ten canonical names are pairwise distinct, so the keys of
/// every extracted field mapping are unique.
pub proof fn lemma_canonical_names_distinct(i: int, j: int)
    requires
        0 <= i < 10,
        0 <= j < 10,
        i != j,
    ensures
        canonical_name(i) != canonical_name(j),
{
    reveal_strlit("DTSTART");
    reveal_strlit("DTEND");
    reveal_strlit("DTSTAMP");
    reveal_strlit("UID");
    reveal_strlit("CREATED");
    reveal_strlit("LAST_MODIFIED");
    reveal_strlit("SEQUENCE");
    reveal_strlit("STATUS");
    reveal_strlit("SUMMARY");
    reveal_strlit("TRANSP");
    assert("DTSTART"@.len() == 7 && "DTEND"@.len() == 5 && "DTSTAMP"@.len() == 7 && "UID"@.len()
        == 3 && "CREATED"@.len() == 7 && "LAST_MODIFIED"@.len() == 13 && "SEQUENCE"@.len() == 8
        && "STATUS"@.len() == 6 && "SUMMARY"@.len() == 7 && "TRANSP"@.len() == 6);
    assert("DTSTART"@[5] == 'R' && "DTSTAMP"@[5] == 'M');
    assert("DTSTART"@[0] == 'D' && "DTSTAMP"@[0] == 'D' && "CREATED"@[0] == 'C' && "SUMMARY"@[0]
        == 'S' && "STATUS"@[0] == 'S' && "TRANSP"@[0] == 'T');
}

/// The per-event extraction result: canonical field names, each with
/// its extracted value, keys unique.
#[derive(Debug)]
pub struct FieldMapping {
    /// The name/value entries, in grammar order.
    pub entries: Vec<(String, String)>,
}

impl View for FieldMapping {
    type V = Seq<(Seq<char>, Seq<char>)>;

    open spec fn view(&self) -> Seq<(Seq<char>, Seq<char>)> {
        self.entries@.map_values(|p: (String, String)| (p.0@, p.1@))
    }
}

impl FieldMapping {
    /// Looks a field's value up by its canonical name.
    pub fn get(&self, key: &str) -> (r: Option<&String>)
        ensures
            match r {
                Some(v) => exists|i: int|
                    0 <= i < self@.len() && (#[trigger] self@[i]).0 == key@ && self@[i].1 == v@,
                None => forall|i: int| 0 <= i < self@.len() ==> (#[trigger] self@[i]).0 != key@,
            },
    {
        let mut i: usize = 0;
        while i < self.entries.len()
            invariant
                i <= self.entries.len(),
                forall|j: int| 0 <= j < i ==> (#[trigger] self@[j]).0 != key@,
            decreases self.entries.len() - i,
        {
            if crate::grammar::str_eq(self.entries[i].0.as_str(), key) {
                proof {
                    assert(self@.len() == self.entries@.len());
                    assert(self@[i as int] == (
                        self.entries@[i as int].0@,
                        self.entries@[i as int].1@,
                    ));
                }
                return Some(&self.entries[i].1);
            }
            i = i + 1;
        }
        None
    }
}

/// How many entries the extractor has emitted after walking the first
/// `k` children of a matched event's parse tree: the begin line and
/// the end line add none; each of the ten field lines adds one.
pub open spec fn emitted(k: int) -> int {
    if k <= 1 {
        0
    } else if k <= 11 {
        k - 1
    } else {
        10
    }
}

/// Parses one event block and extracts its field mapping.
///
/// Succeeds exactly when the `event` rule matches the whole block; the
/// mapping then holds the ten canonical names in grammar order, each
/// with the verbatim token that followed its field's label.  On a
/// grammar mismatch the result carries the syntax diagnostic.
pub fn parse_event(input: &str) -> (r: Result<FieldMapping, ParseError>)
    ensures
        match r {
            Ok(m) => rule_full_match(Rule::event, input@) && m@ == event_mapping(input@),
            Err(e) => !rule_full_match(Rule::event, input@) && e is ParsingError,
        },
{
    let pair = match EventParser::parse(Rule::event, input) {
        Ok(p) => p,
        Err(e) => {
            return Err(e);
        },
    };
    let mut entries: Vec<(String, String)> = Vec::new();
    let mut k: usize = 0;
    while k < pair.children.len()
        invariant
            rule_full_match(Rule::event, input@),
            k <= pair.children@.len(),
            pair.children@.len() == 12,
            pair.children@[0].rule == Rule::begin,
            pair.children@[11].rule == Rule::end,
            forall|i: int|
                0 <= i < 10 ==> (#[trigger] pair.children@[i + 1]).rule == field_rule(i)
                    && pair.children@[i + 1].value@ == event_value_token(input@, i),
            entries@.len() == emitted(k as int),
            forall|j: int|
                0 <= j < entries@.len() ==> (#[trigger] entries@[j]).0@ == canonical_name(j)
                    && entries@[j].1@ == event_value_token(input@, j),
        decreases pair.children@.len() - k,
    {
        let child = &pair.children[k];
        proof {
            if 1 <= k < 11 {
                assert(pair.children@[(k - 1) + 1].rule == field_rule(k as int - 1));
                assert(pair.children@[(k - 1) + 1].value@ == event_value_token(
                    input@,
                    k as int - 1,
                ));
            }
        }
        match child.rule {
            Rule::dtstart => entries.push(("DTSTART".to_owned(), child.value.clone())),
            Rule::dtend => entries.push(("DTEND".to_owned(), child.value.clone())),
            Rule::dtstamp => entries.push(("DTSTAMP".to_owned(), child.value.clone())),
            Rule::uid => entries.push(("UID".to_owned(), child.value.clone())),
            Rule::created => entries.push(("CREATED".to_owned(), child.value.clone())),
            Rule::last_modified => entries.push(("LAST_MODIFIED".to_owned(), child.value.clone())),
            Rule::sequence => entries.push(("SEQUENCE".to_owned(), child.value.clone())),
            Rule::status => entries.push(("STATUS".to_owned(), child.value.clone())),
            Rule::summary => entries.push(("SUMMARY".to_owned(), child.value.clone())),
            Rule::transp => entries.push(("TRANSP".to_owned(), child.value.clone())),
            _ => {},
        }
        k = k + 1;
    }
    if entries.len() == 0 {
        return Err(ParseError::EmptyEvent);
    }
    proof {
        let m = entries@.map_values(|p: (String, String)| (p.0@, p.1@));
        assert(m.len() == entries@.len());
        assert forall|j: int| 0 <= j < 10 implies m[j] == event_mapping(input@)[j] by {
            assert(m[j] == (entries@[j].0@, entries@[j].1@));
        }
        assert(m =~= event_mapping(input@));
    }
    Ok(FieldMapping { entries })
}

/// The mappings of the blocks whose text the `event` rule matches, in
/// block order; a block the grammar rejects contributes nothing.
pub open spec fn collect_mappings(bs: Seq<Seq<char>>) -> Seq<Seq<(Seq<char>, Seq<char>)>>
    decreases bs.len(),
{
    if bs.len() == 0 {
        Seq::empty()
    } else {
        let rest = collect_mappings(bs.drop_last());
        if rule_full_match(Rule::event, bs.last()) {
            rest.push(event_mapping(bs.last()))
        } else {
            rest
        }
    }
}

/// Parses a batch of event blocks, keeping the mappings of the blocks
/// the grammar accepts, in their original order, and a diagnostic for
/// each block it rejects: one failure never aborts the batch.
pub fn parse_event_blocks(blocks: &Vec<String>) -> (r: (Vec<FieldMapping>, Vec<String>))
    ensures
        r.0@.map_values(|m: FieldMapping| m@) == collect_mappings(
            blocks@.map_values(|b: String| b@),
        ),
        r.0@.len() + r.1@.len() == blocks@.len(),
{
    let ghost vs = blocks@.map_values(|b: String| b@);
    let mut out: Vec<FieldMapping> = Vec::new();
    let mut errs: Vec<String> = Vec::new();
    let mut i: usize = 0;
    while i < blocks.len()
        invariant
            i <= blocks@.len(),
            vs == blocks@.map_values(|b: String| b@),
            vs.len() == blocks@.len(),
            out@.map_values(|m: FieldMapping| m@) =~= collect_mappings(vs.take(i as int)),
            out@.len() + errs@.len() == i,
        decreases blocks@.len() - i,
    {
        proof {
            assert(vs.take(i + 1).drop_last() =~= vs.take(i as int));
            assert(vs.take(i + 1).last() == vs[i as int]);
        }
        match parse_event(blocks[i].as_str()) {
            Ok(m) => {
                out.push(m);
                proof {
                    assert(out@.map_values(|m2: FieldMapping| m2@) =~= collect_mappings(
                        vs.take(i + 1),
                    ));
                }
            },
            Err(e) => {
                errs.push(e.message().to_owned());
            },
        }
        i = i + 1;
    }
    proof {
        assert(vs.take(vs.len() as int) =~= vs);
    }
    (out, errs)
}

} // verus!
