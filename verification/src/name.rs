//! What the product is called, and who the assistant is that works its boards.
use vstd::prelude::*;

use crate::text::{chars, split_once, split_once_spec, Text};

verus! {

/// The product's name as code spells it.
pub const CODE_NAME: &'static str = "claude_kanban";

/// The product's name as people spell it: with a hyphen.
pub open spec fn hyphenated(s: Text) -> Text {
    Seq::new(
        s.len(),
        |i: int|
            if s[i] == '_' {
                '-'
            } else {
                s[i]
            },
    )
}

/// The product's name as people spell it.
pub fn product() -> (r: String)
    ensures
        r@ == hyphenated(CODE_NAME@),
{
    let v: Vec<char> = chars(CODE_NAME);
    let mut out: String = String::new();
    let mut i: usize = 0;
    while i < v.len()
        invariant
            v@ == CODE_NAME@,
            i <= v@.len(),
            out@ == hyphenated(CODE_NAME@.take(i as int)),
        decreases v@.len() - i,
    {
        out.push(if v[i] == '_' { '-' } else { v[i] });
        i = i + 1;
        assert(out@ =~= hyphenated(CODE_NAME@.take(i as int)));
    }
    assert(CODE_NAME@.take(CODE_NAME@.len() as int) =~= CODE_NAME@);
    out
}

/// The assistant's name: what stands in front of the underscore.
pub open spec fn assistant_name() -> Text {
    match split_once_spec(CODE_NAME@, '_') {
        Some(parts) => parts.0,
        None => CODE_NAME@,
    }
}

/// Who the assistant is on a board when it does not say otherwise.
pub fn assistant() -> (r: String)
    ensures
        r@ == assistant_name(),
{
    match split_once(CODE_NAME, '_') {
        Some((name, _)) => name,
        None => CODE_NAME.to_owned(),
    }
}

} // verus!
