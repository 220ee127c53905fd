//! Class-name matching: a container entry's path-style name is turned
//! into a dotted class name, and the three match policies — exact,
//! substring, package — are evaluated against it.
use vstd::prelude::*;
use crate::text::{
    spec_contains, spec_ends_with, spec_starts_with, chars_eq, contains_chars, ends_with_chars,
    starts_with_chars, str_chars,
};

verus! {

/// The class-file suffix stripped from entry names.
pub open spec fn class_suffix() -> Seq<char> {
    ".class"@
}

/// An entry name without its class-file suffix, when it has one.
pub open spec fn spec_strip_class(n: Seq<char>) -> Seq<char> {
    if spec_ends_with(n, class_suffix()) {
        n.subrange(0, n.len() - class_suffix().len())
    } else {
        n
    }
}

/// Path separators replaced by dots.
pub open spec fn spec_dots(s: Seq<char>) -> Seq<char> {
    s.map_values(|c: char| if c == '/' { '.' } else { c })
}

/// Dots replaced by path separators.
pub open spec fn spec_slashes(s: Seq<char>) -> Seq<char> {
    s.map_values(|c: char| if c == '.' { '/' } else { c })
}

/// The dotted class name an entry name yields: the class-file suffix
/// removed, path separators turned into dots.
pub open spec fn spec_dotted(n: Seq<char>) -> Seq<char> {
    spec_dots(spec_strip_class(n))
}

/// Exact-match policy: the dotted name is the query itself, or ends
/// with a dot followed by the query.
pub open spec fn spec_exact_match(q: Seq<char>, dotted: Seq<char>) -> bool {
    dotted == q || spec_ends_with(dotted, seq!['.'] + q)
}

/// Substring policy: the dotted name contains the query anywhere.
pub open spec fn spec_substring_match(q: Seq<char>, dotted: Seq<char>) -> bool {
    spec_contains(dotted, q)
}

/// Package policy, over the undotted entry name: the name lies under
/// the package's slash-form directory and carries the class suffix.
pub open spec fn spec_package_match(q: Seq<char>, n: Seq<char>) -> bool {
    spec_starts_with(n, spec_slashes(q).push('/')) && spec_ends_with(n, class_suffix())
}

/// Whether an entry name carries the class-file suffix.
pub fn is_class_entry(n: &Vec<char>) -> (r: bool)
    ensures
        r == spec_ends_with(n@, class_suffix()),
{
    let suffix = str_chars(".class");
    ends_with_chars(n, &suffix)
}

/// The dotted class name of an entry.
pub fn dotted_name(n: &Vec<char>) -> (r: Vec<char>)
    ensures
        r@ == spec_dotted(n@),
{
    proof {
        assert(".class"@.len() == 6) by {
            reveal_strlit(".class");
        }
    }
    let suffix = str_chars(".class");
    let mut stripped: Vec<char> = Vec::new();
    let end: usize = if ends_with_chars(n, &suffix) {
        n.len() - 6
    } else {
        n.len()
    };
    let mut i: usize = 0;
    while i < end
        invariant
            i <= end <= n@.len(),
            stripped@ == spec_dots(spec_strip_class(n@).subrange(0, i as int)),
            end == spec_strip_class(n@).len(),
        decreases end - i,
    {
        let c = n[i];
        if c == '/' {
            stripped.push('.');
        } else {
            stripped.push(c);
        }
        i += 1;
        proof {
            assert(spec_strip_class(n@)[i - 1] == n@[i - 1]);
            assert(stripped@ =~= spec_dots(spec_strip_class(n@).subrange(0, i as int)));
        }
    }
    proof {
        assert(spec_strip_class(n@).subrange(0, end as int) =~= spec_strip_class(n@));
    }
    stripped
}

/// The slash form of a dotted package query.
pub fn package_path(q: &Vec<char>) -> (r: Vec<char>)
    ensures
        r@ == spec_slashes(q@),
{
    let mut r: Vec<char> = Vec::new();
    let mut i: usize = 0;
    while i < q.len()
        invariant
            i <= q@.len(),
            r@ == spec_slashes(q@.subrange(0, i as int)),
        decreases q@.len() - i,
    {
        let c = q[i];
        if c == '.' {
            r.push('/');
        } else {
            r.push(c);
        }
        i += 1;
        proof {
            assert(r@ =~= spec_slashes(q@.subrange(0, i as int)));
        }
    }
    proof {
        assert(q@.subrange(0, q@.len() as int) =~= q@);
    }
    r
}

/// Evaluate the exact-match policy on a dotted name.
pub fn exact_match(q: &Vec<char>, dotted: &Vec<char>) -> (r: bool)
    ensures
        r == spec_exact_match(q@, dotted@),
{
    let mut dq: Vec<char> = Vec::new();
    dq.push('.');
    let mut i: usize = 0;
    while i < q.len()
        invariant
            i <= q@.len(),
            dq@ == seq!['.'] + q@.subrange(0, i as int),
        decreases q@.len() - i,
    {
        dq.push(q[i]);
        i += 1;
        proof {
            assert(dq@ =~= seq!['.'] + q@.subrange(0, i as int));
        }
    }
    proof {
        assert(q@.subrange(0, q@.len() as int) =~= q@);
    }
    chars_eq(dotted, q) || ends_with_chars(dotted, &dq)
}

/// Evaluate the substring policy on a dotted name.
pub fn substring_match(q: &Vec<char>, dotted: &Vec<char>) -> (r: bool)
    ensures
        r == spec_substring_match(q@, dotted@),
{
    contains_chars(dotted, q)
}

/// Evaluate the package policy on a raw entry name.
pub fn package_match(q: &Vec<char>, n: &Vec<char>) -> (r: bool)
    ensures
        r == spec_package_match(q@, n@),
{
    let mut prefix = package_path(q);
    prefix.push('/');
    let suffix = str_chars(".class");
    starts_with_chars(n, &prefix) && ends_with_chars(n, &suffix)
}

} // verus!
