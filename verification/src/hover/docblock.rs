//! Locating the docblock that precedes a declaration.
use vstd::prelude::*;
use vstd::utf8::encode_utf8;

use crate::text::{chars_of, str_get, str_get_spec, string_from_range, trim_end_chars, trim_end_len};

verus! {

/// The string's view, if any.
pub open spec fn opt_view(o: Option<String>) -> Option<Seq<char>> {
    match o {
        Some(s) => Some(s@),
        None => None,
    }
}

/// `needle` occurs in `s` starting at index `i`.
pub open spec fn occurs_at(s: Seq<char>, i: int, needle: Seq<char>) -> bool {
    0 <= i && i + needle.len() <= s.len() && s.subrange(i, i + needle.len()) == needle
}

/// The characters `/**` that open a docblock.
pub open spec fn docblock_open() -> Seq<char> {
    seq!['/', '*', '*']
}

/// `k` is the last index at which `/**` occurs in `t`.
pub open spec fn is_last_docblock_open(t: Seq<char>, k: int) -> bool {
    occurs_at(t, k, docblock_open()) && forall|j: int| k < j ==> !occurs_at(t, j, docblock_open())
}

/// The docblock that ends right before byte offset `method_start` of
/// `content` (trailing whitespace skipped): the text from the last `/**`
/// up to the closing `*/`. `None` when the offset is not a character
/// boundary of the text, when the text before it (trailing whitespace
/// skipped) does not end with `*/`, or when it holds no `/**`.
pub open spec fn method_docblock(content: Seq<char>, method_start: int) -> Option<Seq<char>> {
    match str_get_spec(encode_utf8(content), 0, method_start) {
        None => None,
        Some(before) => trailing_docblock(trim_end_chars(before)),
    }
}

/// The docblock that `t` ends with: from the last `/**` to the end, when
/// `t` ends with `*/` and holds a `/**`.
pub open spec fn trailing_docblock(t: Seq<char>) -> Option<Seq<char>> {
    if t.len() >= 2 && t[t.len() - 2] == '*' && t[t.len() - 1] == '/' && exists|i: int|
        occurs_at(t, i, docblock_open()) {
        Some(t.subrange(choose|k: int| is_last_docblock_open(t, k), t.len() as int))
    } else {
        None
    }
}

/// Extract the raw docblock text for a method/function at the given
/// source offset by scanning backwards for `/** ... */`.
pub fn find_method_docblock(content: &str, method_start: usize) -> (r: Option<String>)
    ensures
        opt_view(r) == method_docblock(content@, method_start as int),
{
    let before = match str_get(content, 0, method_start) {
        Some(b) => b,
        None => return None,
    };
    let v = chars_of(before);
    let e = trim_end_len(&v);
    let ghost t = v@.take(e as int);
    if e < 2 || v[e - 2] != '*' || v[e - 1] != '/' {
        return None;
    }
    if e < 3 {
        proof {
            if exists|i: int| occurs_at(t, i, docblock_open()) {
                let i = choose|i: int| occurs_at(t, i, docblock_open());
            }
        }
        return None;
    }
    // Search backwards for the last `/**`.
    let mut i: usize = e - 3;
    loop
        invariant
            e <= v@.len(),
            3 <= e,
            i + 3 <= e,
            t == v@.take(e as int),
            t == trim_end_chars(v@),
            v@ == before@,
            str_get_spec(encode_utf8(content@), 0, method_start as int) == Some(before@),
            t.len() >= 2 && t[t.len() - 2] == '*' && t[t.len() - 1] == '/',
            forall|j: int| i < j ==> !occurs_at(t, j, docblock_open()),
        decreases i,
    {
        if v[i] == '/' && v[i + 1] == '*' && v[i + 2] == '*' {
            proof {
                assert(t.subrange(i as int, i + 3) =~= docblock_open());
                assert(is_last_docblock_open(t, i as int));
                let k = choose|k: int| is_last_docblock_open(t, k);
                if k != i {
                    assert(!occurs_at(t, if k < i { i as int } else { k }, docblock_open()));
                }
                assert(trailing_docblock(t) == Some(t.subrange(i as int, e as int)));
                assert(t.subrange(i as int, e as int) =~= v@.subrange(i as int, e as int));
            }
            return Some(string_from_range(&v, i, e));
        }
        proof {
            if occurs_at(t, i as int, docblock_open()) {
                assert(t.subrange(i as int, i + 3)[0] == v@[i as int]);
                assert(t.subrange(i as int, i + 3)[1] == v@[i + 1]);
                assert(t.subrange(i as int, i + 3)[2] == v@[i + 2]);
            }
        }
        if i == 0 {
            proof {
                assert(!occurs_at(t, 0, docblock_open()));
                if exists|j: int| occurs_at(t, j, docblock_open()) {
                    let j = choose|j: int| occurs_at(t, j, docblock_open());
                    assert(j >= 0);
                }
            }
            return None;
        }
        i = i - 1;
    }
}

/// The docblock type of a callable's parameter: the type that the
/// `@param`/`@var` annotation lookup found (`annotated`) if any; else the
/// `@param` type that `extract_param_raw_type` reads from the docblock
/// before the callable (starting at byte offset `owner_start`), which is
/// run only when there is such a docblock.
pub fn parameter_docblock_type<F: FnOnce(String) -> Option<String>>(
    annotated: Option<String>,
    content: &str,
    owner_start: usize,
    extract_param_raw_type: F,
) -> (r: Option<String>)
    requires
        forall|doc: String| call_requires(extract_param_raw_type, (doc,)),
    ensures
        annotated is Some ==> r == annotated,
        annotated is None ==> match method_docblock(content@, owner_start as int) {
            Some(d) => exists|doc: String| doc@ == d && call_ensures(extract_param_raw_type, (doc,), r),
            None => r is None,
        },
{
    if annotated.is_some() {
        return annotated;
    }
    match find_method_docblock(content, owner_start) {
        Some(doc) => {
            let ghost d = doc;
            let r = extract_param_raw_type(doc);
            assert(call_ensures(extract_param_raw_type, (d,), r));
            r
        },
        None => None,
    }
}

} // verus!
