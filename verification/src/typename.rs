//! Short element kinds from Rust type names:
//! `gpui::elements::div::Stateful<gpui::elements::div::Div>` becomes `Stateful<Div>`.

use vstd::prelude::*;
use vstd::string::*;
use crate::text::{chars_of, push_char};

verus! {

/// A character that ends a path segment and is kept (`<`, `>`, `,`) or dropped (space).
pub open spec fn is_separator(c: char) -> bool {
    c == '<' || c == '>' || c == ',' || c == ' '
}

/// Scanning `s` left to right: the text emitted so far and the path segment in
/// progress. A separator flushes the segment and emits itself (a comma followed by
/// one space; a space not at all); `:` discards the segment (a path prefix); any
/// other character extends the segment.
pub open spec fn scan_type_name(s: Seq<char>) -> (Seq<char>, Seq<char>)
    decreases s.len(),
{
    if s.len() == 0 {
        (Seq::empty(), Seq::empty())
    } else {
        let (out, segment) = scan_type_name(s.drop_last());
        let c = s.last();
        if is_separator(c) {
            let kept = if c == ' ' { Seq::empty() } else if c == ',' { seq![',', ' '] } else { seq![c] };
            (out + segment + kept, Seq::empty())
        } else if c == ':' {
            (out, Seq::empty())
        } else {
            (out, segment.push(c))
        }
    }
}

/// A type name with every path prefix removed: the emitted text plus the last segment.
pub open spec fn simplified_type_name(s: Seq<char>) -> Seq<char> {
    scan_type_name(s).0 + scan_type_name(s).1
}

/// Drops the module paths from a type name.
pub fn simplify_type_name(full: &str) -> (s: String)
    ensures
        s@ == simplified_type_name(full@),
{
    let chars = chars_of(full);
    let mut out = String::new();
    let mut segment = String::new();
    let mut i: usize = 0;
    while i < chars.len()
        invariant
            chars@ == full@,
            i <= chars.len(),
            (out@, segment@) == scan_type_name(full@.subrange(0, i as int)),
        decreases chars.len() - i,
    {
        let ch = chars[i];
        proof {
            let post = full@.subrange(0, i + 1);
            assert(post.drop_last() =~= full@.subrange(0, i as int));
            assert(post.last() == ch);
        }
        if ch == '<' || ch == '>' || ch == ',' || ch == ' ' {
            out.append(segment.as_str());
            segment = String::new();
            if ch != ' ' {
                push_char(&mut out, ch);
            }
            if ch == ',' {
                push_char(&mut out, ' ');
            }
            proof {
                let (o, g) = scan_type_name(full@.subrange(0, i as int));
                let kept: Seq<char> = if ch == ' ' { Seq::empty() } else if ch == ',' { seq![',', ' '] } else { seq![ch] };
                assert(out@ =~= o + g + kept);
            }
        } else if ch == ':' {
            segment = String::new();
        } else {
            push_char(&mut segment, ch);
        }
        i = i + 1;
    }
    assert(full@.subrange(0, chars.len() as int) =~= full@);
    out.append(segment.as_str());
    out
}

// ---- what a simplified name looks like ----

/// The shape of a simplified name: no `:`, every `,` followed by a space, and every
/// space preceded by a `,`.
pub open spec fn is_tidy_type_name(t: Seq<char>) -> bool {
    &&& forall|i: int| 0 <= i < t.len() ==> #[trigger] t[i] != ':'
    &&& forall|i: int| 0 <= i < t.len() && #[trigger] t[i] == ',' ==> i + 1 < t.len() && t[i + 1] == ' '
    &&& forall|i: int| 0 <= i < t.len() && #[trigger] t[i] == ' ' ==> i > 0 && t[i - 1] == ','
}

/// A path segment in progress: no separator and no `:`.
pub open spec fn is_plain_segment(g: Seq<char>) -> bool {
    forall|i: int| 0 <= i < g.len() ==> !is_separator(#[trigger] g[i]) && g[i] != ':'
}

/// The text emitted by a scan is tidy and the segment in progress is plain.
pub proof fn lemma_scan_shape(s: Seq<char>)
    ensures
        is_tidy_type_name(scan_type_name(s).0),
        is_plain_segment(scan_type_name(s).1),
    decreases s.len(),
{
    if s.len() > 0 {
        lemma_scan_shape(s.drop_last());
        let (o, g) = scan_type_name(s.drop_last());
        let c = s.last();
        if is_separator(c) {
            let kept: Seq<char> = if c == ' ' { Seq::empty() } else if c == ',' { seq![',', ' '] } else { seq![c] };
            let r = o + g + kept;
            assert(scan_type_name(s).0 == r);
            assert forall|i: int| 0 <= i < r.len() implies #[trigger] r[i] != ':' by {
                if i < o.len() {
                    assert(r[i] == o[i]);
                } else if i < o.len() + g.len() {
                    assert(r[i] == g[i - o.len()]);
                } else {
                    assert(r[i] == kept[i - o.len() - g.len()]);
                }
            }
            assert forall|i: int| 0 <= i < r.len() && #[trigger] r[i] == ',' implies i + 1 < r.len() && r[i + 1] == ' ' by {
                if i < o.len() {
                    assert(r[i] == o[i]);
                    assert(o[i] == ',');
                    assert(r[i + 1] == o[i + 1]);
                } else if i < o.len() + g.len() {
                    assert(r[i] == g[i - o.len()]);
                } else {
                    assert(r[i] == kept[i - o.len() - g.len()]);
                    assert(r[i + 1] == kept[i + 1 - o.len() - g.len()]);
                }
            }
            assert forall|i: int| 0 <= i < r.len() && #[trigger] r[i] == ' ' implies i > 0 && r[i - 1] == ',' by {
                if i < o.len() {
                    assert(r[i] == o[i]);
                    assert(o[i] == ' ');
                    assert(r[i - 1] == o[i - 1]);
                } else if i < o.len() + g.len() {
                    assert(r[i] == g[i - o.len()]);
                } else {
                    assert(r[i] == kept[i - o.len() - g.len()]);
                    assert(r[i - 1] == kept[i - 1 - o.len() - g.len()]);
                }
            }
        } else if c == ':' {
        } else {
            let g2 = g.push(c);
            assert(scan_type_name(s).1 == g2);
            assert forall|i: int| 0 <= i < g2.len() implies !is_separator(#[trigger] g2[i]) && g2[i] != ':' by {
                if i < g.len() {
                    assert(g2[i] == g[i]);
                }
            }
        }
    }
}

/// Scanning a prefix of a tidy name gives the prefix back (a trailing `,` already
/// with its space).
proof fn lemma_scan_tidy_prefix(t: Seq<char>, k: int)
    requires
        is_tidy_type_name(t),
        0 <= k <= t.len(),
    ensures
        k > 0 && t[k - 1] == ',' ==> scan_type_name(t.subrange(0, k)).0 == t.subrange(0, k) + seq![' ']
            && scan_type_name(t.subrange(0, k)).1 == Seq::<char>::empty(),
        !(k > 0 && t[k - 1] == ',') ==> scan_type_name(t.subrange(0, k)).0 + scan_type_name(t.subrange(0, k)).1
            == t.subrange(0, k),
    decreases k,
{
    if k > 0 {
        lemma_scan_tidy_prefix(t, k - 1);
        let p = t.subrange(0, k);
        let q = t.subrange(0, k - 1);
        assert(p.drop_last() =~= q);
        assert(p.last() == t[k - 1]);
        let c = t[k - 1];
        let (o, g) = scan_type_name(q);
        if k > 1 && t[k - 2] == ',' {
            assert(t[k - 1] == ' ');
        }
        assert(c != ':');
        if is_separator(c) {
            if c == ' ' {
                assert(k > 1 && t[k - 2] == ',');
                assert(o + g + Seq::<char>::empty() =~= p);
            } else if c == ',' {
                assert(o + g + seq![',', ' '] =~= p + seq![' ']);
            } else {
                assert(o + g + seq![c] =~= p);
            }
        } else {
            assert(o + g.push(c) =~= p);
        }
    } else {
        assert(t.subrange(0, 0) =~= Seq::<char>::empty());
    }
}

/// A tidy name is its own simplification.
pub proof fn lemma_tidy_fixed(t: Seq<char>)
    requires
        is_tidy_type_name(t),
    ensures
        simplified_type_name(t) == t,
{
    lemma_scan_tidy_prefix(t, t.len() as int);
    assert(t.subrange(0, t.len() as int) =~= t);
    if t.len() > 0 && t[t.len() - 1] == ',' {
        assert(t[t.len() - 1] == ',');
    }
}

/// Without separators, the scan emits nothing and the segment is the text after the
/// last `:` (all of it if there is none); returns where that text starts.
pub proof fn lemma_scan_plain(s: Seq<char>) -> (k: int)
    requires
        forall|i: int| 0 <= i < s.len() ==> !is_separator(#[trigger] s[i]),
    ensures
        0 <= k <= s.len(),
        k == 0 || s[k - 1] == ':',
        forall|j: int| k <= j < s.len() ==> #[trigger] s[j] != ':',
        scan_type_name(s).0 == Seq::<char>::empty(),
        scan_type_name(s).1 == s.subrange(k, s.len() as int),
    decreases s.len(),
{
    if s.len() == 0 {
        0
    } else {
        let q = s.drop_last();
        assert forall|i: int| 0 <= i < q.len() implies !is_separator(#[trigger] q[i]) by {
            assert(q[i] == s[i]);
        }
        let k0 = lemma_scan_plain(q);
        let c = s.last();
        assert(!is_separator(s[s.len() - 1]));
        if c == ':' {
            assert(s.subrange(s.len() as int, s.len() as int) =~= Seq::<char>::empty());
            s.len() as int
        } else {
            assert(q.subrange(k0, q.len() as int).push(c) =~= s.subrange(k0, s.len() as int));
            assert forall|j: int| k0 <= j < s.len() implies #[trigger] s[j] != ':' by {
                if j < q.len() {
                    assert(s[j] == q[j]);
                }
            }
            k0
        }
    }
}

} // verus!
