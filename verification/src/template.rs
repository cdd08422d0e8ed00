//! Templates with positional placeholders.
//!
//! A template is plain text in which `{}` marks a placeholder, `{{` stands for
//! an opening brace and `}}` for a closing brace. Any other use of a brace
//! makes the template malformed.
use vstd::prelude::*;
use vstd::std_specs::iter::IteratorSpec;
use vstd::string::StrSliceExecFns;
use vstd::string::StringExecFns;

verus! {

/// The number of placeholders of a template, or `None` where it is malformed.
pub open spec fn holes(t: Seq<char>) -> Option<nat>
    decreases t.len(),
{
    if t.len() == 0 {
        Some(0)
    } else if t[0] == '{' {
        if t.len() >= 2 && t[1] == '}' {
            match holes(t.skip(2)) {
                Some(n) => Some(n + 1),
                None => None,
            }
        } else if t.len() >= 2 && t[1] == '{' {
            holes(t.skip(2))
        } else {
            None
        }
    } else if t[0] == '}' {
        if t.len() >= 2 && t[1] == '}' {
            holes(t.skip(2))
        } else {
            None
        }
    } else {
        holes(t.skip(1))
    }
}

/// The text of a template with its placeholders replaced, in order, by the
/// given arguments. A placeholder for which no argument is left yields nothing.
pub open spec fn fill(t: Seq<char>, args: Seq<Seq<char>>) -> Seq<char>
    decreases t.len(),
{
    if t.len() == 0 {
        Seq::empty()
    } else if t.len() >= 2 && t[0] == '{' && t[1] == '}' {
        if args.len() > 0 {
            args[0] + fill(t.skip(2), args.skip(1))
        } else {
            fill(t.skip(2), args)
        }
    } else if t.len() >= 2 && t[0] == t[1] && (t[0] == '{' || t[0] == '}') {
        seq![t[0]] + fill(t.skip(2), args)
    } else {
        seq![t[0]] + fill(t.skip(1), args)
    }
}

/// The texts of a sequence of strings.
pub open spec fn views(v: Seq<String>) -> Seq<Seq<char>> {
    v.map_values(|s: String| s@)
}

/// The characters of a string, one by one.
pub fn chars_of(s: &str) -> (out: Vec<char>)
    ensures
        out@ == s@,
{
    let mut out: Vec<char> = Vec::new();
    for c in it: s.chars()
        invariant
            out@ == it.seq().take(it.index() as int),
            it.seq() == s@,
    {
        out.push(c);
    }
    out
}

/// Counts the placeholders of a template.
pub fn count_holes(fmt: &str) -> (n: Option<usize>)
    ensures
        match n {
            Some(k) => holes(fmt@) == Some(k as nat),
            None => holes(fmt@) is None,
        },
{
    let t = chars_of(fmt);
    let mut i: usize = 0;
    let mut k: usize = 0;
    assert(t@.skip(0) =~= t@);
    while i < t.len()
        invariant
            t@ == fmt@,
            i <= t.len(),
            k <= i,
            holes(t@) == match holes(t@.skip(i as int)) {
                Some(n) => Some((n + k) as nat),
                None => None,
            },
        decreases t.len() - i,
    {
        let ghost rest = t@.skip(i as int);
        let c = t[i];
        assert(rest[0] == c);
        if c == '{' {
            if i + 1 < t.len() && t[i + 1] == '}' {
                assert(rest[1] == '}');
                assert(rest.skip(2) =~= t@.skip(i + 2));
                i = i + 2;
                k = k + 1;
            } else if i + 1 < t.len() && t[i + 1] == '{' {
                assert(rest[1] == '{');
                assert(rest.skip(2) =~= t@.skip(i + 2));
                i = i + 2;
            } else {
                assert(rest.len() >= 2 ==> rest[1] == t@[i + 1]);
                return None;
            }
        } else if c == '}' {
            if i + 1 < t.len() && t[i + 1] == '}' {
                assert(rest[1] == '}');
                assert(rest.skip(2) =~= t@.skip(i + 2));
                i = i + 2;
            } else {
                assert(rest.len() >= 2 ==> rest[1] == t@[i + 1]);
                return None;
            }
        } else {
            assert(rest.skip(1) =~= t@.skip(i + 1));
            i = i + 1;
        }
    }
    assert(t@.skip(i as int) =~= Seq::<char>::empty());
    Some(k)
}

/// Fills a template that has one placeholder for each argument: each
/// placeholder is replaced by the next argument.
pub fn fill_text(fmt: &str, args: &Vec<String>) -> (out: String)
    requires
        holes(fmt@) == Some(args@.len()),
    ensures
        out@ == fill(fmt@, views(args@)),
{
    let t = chars_of(fmt);
    let mut out = String::new();
    let mut i: usize = 0;
    let mut start: usize = 0;
    let mut k: usize = 0;
    proof {
        assert(fmt@.subrange(0, 0) =~= Seq::<char>::empty());
        assert(fmt@.skip(0) =~= fmt@);
        assert(views(args@).skip(0) =~= views(args@));
        assert(out@ + fmt@.subrange(0, 0) + fill(fmt@, views(args@)) =~= fill(fmt@, views(args@)));
    }
    while i < t.len()
        invariant
            t@ == fmt@,
            start <= i <= t.len(),
            k <= args.len(),
            fill(fmt@, views(args@)) == out@ + fmt@.subrange(start as int, i as int) + fill(
                fmt@.skip(i as int),
                views(args@).skip(k as int),
            ),
        decreases t.len() - i,
    {
        let ghost rest = fmt@.skip(i as int);
        let ghost left = views(args@).skip(k as int);
        let ghost run = fmt@.subrange(start as int, i as int);
        let ghost done = out@;
        let c = t[i];
        assert(rest[0] == c);
        if i + 1 < t.len() && (c == '{' || c == '}') && (t[i + 1] == c || (c == '{' && t[i + 1]
            == '}')) {
            let d = t[i + 1];
            assert(rest[1] == d);
            assert(rest.skip(2) =~= fmt@.skip(i + 2));
            out.append(fmt.substring_char(start, i));
            if d == '}' && c == '{' {
                if k < args.len() {
                    assert(left[0] == args@[k as int]@);
                    assert(left.skip(1) =~= views(args@).skip(k + 1));
                    out.append(args[k].as_str());
                    k = k + 1;
                    assert(out@ =~= done + run + left[0]);
                } else {
                    assert(left.len() == 0);
                }
            } else {
                proof {
                    reveal_strlit("{");
                    reveal_strlit("}");
                }
                if c == '{' {
                    out.append("{");
                } else {
                    out.append("}");
                }
                assert(out@ =~= done + run + seq![c]);
            }
            i = i + 2;
            start = i;
            assert(fmt@.subrange(start as int, i as int) =~= Seq::<char>::empty());
            assert(fill(fmt@, views(args@)) =~= out@ + fmt@.subrange(start as int, i as int)
                + fill(fmt@.skip(i as int), views(args@).skip(k as int)));
        } else {
            assert(rest.skip(1) =~= fmt@.skip(i + 1));
            assert(fmt@.subrange(start as int, i + 1) =~= run + seq![c]);
            assert(fill(rest, left) == seq![c] + fill(rest.skip(1), left));
            i = i + 1;
            assert(fill(fmt@, views(args@)) =~= out@ + fmt@.subrange(start as int, i as int)
                + fill(fmt@.skip(i as int), views(args@).skip(k as int)));
        }
    }
    assert(fmt@.skip(i as int) =~= Seq::<char>::empty());
    out.append(fmt.substring_char(start, i));
    assert(out@ =~= fill(fmt@, views(args@)));
    out
}

} // verus!
