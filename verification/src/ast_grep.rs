//! The AST-pattern matcher front end: dynamic rule construction, the
//! interpretation of one matcher invocation's outcome, and the ordering
//! guarantee on the matches handed back.
//!
//! The matcher binary itself is an external subprocess; the caller that
//! owns that edge runs it and hands its exit status, parsed output and
//! stderr text to [`collect_matches`].

use vstd::multiset::Multiset;
use vstd::prelude::*;
use vstd::seq_lib::lemma_multiset_commutative;
use vstd::string::*;

use crate::errors::LspProxyError;
use crate::{Position, Symbol, TextRange};

verus! {

/// A client of the external structural matcher, configured by a rule
/// file path.
pub struct AstGrepClient {
    pub config_path: String,
}

impl AstGrepClient {
    /// Builds the inline rule set for a structural identifier search:
    /// one rule each for a variable declarator, a method declaration and
    /// an enum constant, every rule constrained by `target` as the
    /// identifier regex.
    pub fn create_dynamic_rule(target: &str) -> (r: String)
        ensures
            r@ == "\nid: variable\nlanguage: java\nrule:\n  kind: identifier\n  pattern: $NAME\n  inside:\n    kind: variable_declarator\n    pattern: $CONTEXT\n    regex: "@
                + target@
                + "\n\n---\n\nid: method\nlanguage: java\nrule:\n  kind: identifier\n  pattern: $NAME\n  inside:\n    kind: method_declaration\n    pattern: $CONTEXT\n    regex: "@
                + target@
                + "\n---\n\nid: enum\nlanguage: java\nrule:\n  kind: identifier\n  pattern: $NAME\n  inside:\n    kind: enum_constant\n    pattern: $CONTEXT\n    regex: "@
                + target@ + "\n        "@,
    {
        let mut s = String::from_str(
            "\nid: variable\nlanguage: java\nrule:\n  kind: identifier\n  pattern: $NAME\n  inside:\n    kind: variable_declarator\n    pattern: $CONTEXT\n    regex: ",
        );
        s.append(target);
        s.append(
            "\n\n---\n\nid: method\nlanguage: java\nrule:\n  kind: identifier\n  pattern: $NAME\n  inside:\n    kind: method_declaration\n    pattern: $CONTEXT\n    regex: ",
        );
        s.append(target);
        s.append(
            "\n---\n\nid: enum\nlanguage: java\nrule:\n  kind: identifier\n  pattern: $NAME\n  inside:\n    kind: enum_constant\n    pattern: $CONTEXT\n    regex: ",
        );
        s.append(target);
        s.append("\n        ");
        s
    }
}

/// One structural match: the matched identifier's text and span, the
/// `NAME` metavariable's text, the rule that fired (`variable`,
/// `method`, `enum`, ...) and the span of the enclosing declaration
/// (the `CONTEXT` metavariable).
#[derive(Clone, Debug, PartialEq, Eq)]
pub struct AstGrepMatch {
    pub text: String,
    pub range: TextRange,
    pub name: String,
    pub kind: String,
    pub context_range: TextRange,
}

/// Match order: by starting line, then by starting character.
pub open spec fn spec_key_le(a: AstGrepMatch, b: AstGrepMatch) -> bool {
    ||| a.range.start.line < b.range.start.line
    ||| (a.range.start.line == b.range.start.line && a.range.start.character
        <= b.range.start.character)
}

/// Non-decreasing in (line, character) of the match's start.
pub open spec fn spec_sorted(s: Seq<AstGrepMatch>) -> bool {
    forall|i: int, j: int| 0 <= i < j < s.len() ==> spec_key_le(s[i], s[j])
}

fn key_le(a: &AstGrepMatch, b: &AstGrepMatch) -> (r: bool)
    ensures
        r == spec_key_le(*a, *b),
{
    a.range.start.line < b.range.start.line || (a.range.start.line == b.range.start.line
        && a.range.start.character <= b.range.start.character)
}

#[verifier::loop_isolation(false)]
fn insert_sorted(out: &mut Vec<AstGrepMatch>, m: AstGrepMatch)
    requires
        spec_sorted(old(out)@),
    ensures
        spec_sorted(final(out)@),
        final(out)@.to_multiset() == old(out)@.to_multiset().insert(m),
{
    let mut idx: usize = 0;
    while idx < out.len() && key_le(&out[idx], &m)
        invariant
            idx <= out@.len(),
            forall|j: int| 0 <= j < idx ==> spec_key_le(out@[j], m),
        decreases out@.len() - idx,
    {
        idx = idx + 1;
    }
    proof {
        assert forall|j: int| idx <= j < out@.len() implies spec_key_le(m, out@[j]) by {
            assert(spec_key_le(out@[idx as int], out@[j]) || j == idx);
        }
    }
    let ghost pre = out@;
    out.insert(idx, m);
    proof {
        pre.insert_ensures(idx as int, m);
        assert(spec_sorted(out@)) by {
            assert forall|a: int, b: int| 0 <= a < b < out@.len() implies spec_key_le(
                out@[a],
                out@[b],
            ) by {
                if a < idx && b < idx {
                } else if a < idx && b == idx {
                } else if a == idx && b > idx {
                } else if a < idx && b > idx {
                    assert(out@[a] == pre[a]);
                    assert(out@[b] == pre[b - 1]);
                    assert(spec_key_le(pre[a], m));
                    assert(spec_key_le(m, pre[b - 1]));
                }
            }
        }
        broadcast use vstd::seq_lib::group_to_multiset_ensures;
        broadcast use vstd::multiset::group_multiset_axioms;

        let front = pre.subrange(0, idx as int);
        let back = pre.subrange(idx as int, pre.len() as int);
        assert(out@ == front.push(m) + back);
        lemma_multiset_commutative(front.push(m), back);
        lemma_multiset_commutative(front, back);
        assert(front + back =~= pre);
        assert(front.push(m).to_multiset() =~= front.to_multiset().insert(m));
        assert(out@.to_multiset() =~= pre.to_multiset().insert(m));
    }
}

/// Sorts matches into non-decreasing (line, character) order of their
/// start, keeping exactly the given matches.
pub fn sort_matches(items: Vec<AstGrepMatch>) -> (r: Vec<AstGrepMatch>)
    ensures
        spec_sorted(r@),
        r@.to_multiset() == items@.to_multiset(),
{
    broadcast use vstd::seq_lib::group_to_multiset_ensures;

    let mut rest = items;
    let mut out: Vec<AstGrepMatch> = Vec::new();
    proof {
        assert(out@.to_multiset().add(rest@.to_multiset()) =~= items@.to_multiset());
    }
    while rest.len() > 0
        invariant
            spec_sorted(out@),
            out@.to_multiset().add(rest@.to_multiset()) == items@.to_multiset(),
        decreases rest@.len(),
    {
        let ghost rest_pre = rest@;
        let m = rest.pop().unwrap();
        proof {
            broadcast use vstd::seq_lib::group_to_multiset_ensures;
            broadcast use vstd::multiset::group_multiset_axioms;

            assert(rest_pre == rest@.push(m));
            assert(rest@.push(m).to_multiset() =~= rest@.to_multiset().insert(m));
        }
        let ghost out_pre = out@;
        insert_sorted(&mut out, m);
        proof {
            broadcast use vstd::multiset::group_multiset_axioms;

            assert(out@.to_multiset().add(rest@.to_multiset()) =~= items@.to_multiset());
        }
    }
    proof {
        broadcast use vstd::seq_lib::group_to_multiset_ensures;
        broadcast use vstd::multiset::group_multiset_axioms;

        assert(rest@.to_multiset() =~= Multiset::<AstGrepMatch>::empty());
        assert(out@.to_multiset().add(rest@.to_multiset()) =~= out@.to_multiset());
    }
    out
}

/// Interprets one matcher invocation's outcome: a failing exit reports
/// `MatcherFailed` carrying the stderr text, output that did not parse
/// as a match list reports `MatcherOutputInvalid`, and otherwise exactly
/// the parsed matches come back, sorted by starting (line, character).
pub fn collect_matches(
    status_success: bool,
    parsed: Option<Vec<AstGrepMatch>>,
    stderr: &String,
) -> (r: Result<Vec<AstGrepMatch>, LspProxyError>)
    ensures
        !status_success ==> r == Err::<Vec<AstGrepMatch>, LspProxyError>(
            LspProxyError::MatcherFailed { stderr: *stderr },
        ),
        status_success && parsed is None ==> r == Err::<Vec<AstGrepMatch>, LspProxyError>(
            LspProxyError::MatcherOutputInvalid,
        ),
        status_success && parsed is Some ==> r is Ok && spec_sorted(r->Ok_0@)
            && r->Ok_0@.to_multiset() == parsed->Some_0@.to_multiset(),
{
    if !status_success {
        return Err(LspProxyError::MatcherFailed { stderr: stderr.clone() });
    }
    match parsed {
        None => Err(LspProxyError::MatcherOutputInvalid),
        Some(items) => Ok(sort_matches(items)),
    }
}

impl Symbol {
    /// The symbol a match denotes: named and kinded by the match, its
    /// identifier position at the match's start, its span the enclosing
    /// declaration's, both pathed at `path`.
    pub fn from_match(m: &AstGrepMatch, path: &String) -> (r: Symbol)
        ensures
            r.name@ == m.name@,
            r.kind@ == m.kind@,
            r.identifier_position.path@ == path@,
            r.identifier_position.position == m.range.start,
            r.range.path@ == path@,
            r.range.start == m.context_range.start,
            r.range.end == m.context_range.end,
    {
        Symbol {
            name: m.name.clone(),
            kind: m.kind.clone(),
            identifier_position: crate::FilePosition {
                path: path.clone(),
                position: Position { line: m.range.start.line, character: m.range.start.character },
            },
            range: crate::FileRange {
                path: path.clone(),
                start: Position {
                    line: m.context_range.start.line,
                    character: m.context_range.start.character,
                },
                end: Position {
                    line: m.context_range.end.line,
                    character: m.context_range.end.character,
                },
            },
        }
    }
}

/// The symbols for a list of matches, in the matches' order.
pub fn symbols_for_matches(matches: &Vec<AstGrepMatch>, path: &String) -> (r: Vec<Symbol>)
    ensures
        r@.len() == matches@.len(),
        forall|i: int|
            0 <= i < r@.len() ==> {
                let s = #[trigger] r@[i];
                let m = matches@[i];
                &&& s.name@ == m.name@
                &&& s.kind@ == m.kind@
                &&& s.identifier_position.path@ == path@
                &&& s.identifier_position.position == m.range.start
                &&& s.range.path@ == path@
                &&& s.range.start == m.context_range.start
                &&& s.range.end == m.context_range.end
            },
{
    let mut out: Vec<Symbol> = Vec::new();
    let mut i: usize = 0;
    while i < matches.len()
        invariant
            i <= matches@.len(),
            out@.len() == i,
            forall|j: int|
                0 <= j < i ==> {
                    let s = #[trigger] out@[j];
                    let m = matches@[j];
                    &&& s.name@ == m.name@
                    &&& s.kind@ == m.kind@
                    &&& s.identifier_position.path@ == path@
                    &&& s.identifier_position.position == m.range.start
                    &&& s.range.path@ == path@
                    &&& s.range.start == m.context_range.start
                    &&& s.range.end == m.context_range.end
                },
        decreases matches@.len() - i,
    {
        let s = Symbol::from_match(&matches[i], path);
        out.push(s);
        i = i + 1;
    }
    out
}

} // verus!
