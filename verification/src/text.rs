//! Plain-text building blocks of the renderer: Markdown escaping of names,
//! splitting prose into lines, joining blocks with a separator, and the
//! lexicographic order on names that member sorting uses.

use vstd::prelude::*;

verus! {

/// Strict lexicographic (codepoint) order on text: `a` comes before `b`.
pub open spec fn str_lt(a: Seq<char>, b: Seq<char>) -> bool
    decreases a.len(),
{
    if b.len() == 0 {
        false
    } else if a.len() == 0 {
        true
    } else if (a[0] as int) < (b[0] as int) {
        true
    } else if (b[0] as int) < (a[0] as int) {
        false
    } else {
        str_lt(a.drop_first(), b.drop_first())
    }
}

/// What one character of a name becomes outside a code span: an underscore
/// is escaped so Markdown does not read runs of underscores as emphasis.
pub open spec fn spec_escape_char(c: char) -> Seq<char> {
    if c == '_' {
        seq!['\\', '_']
    } else {
        seq![c]
    }
}

/// A name with every underscore replaced by the two-character escape.
pub open spec fn spec_escape(s: Seq<char>) -> Seq<char>
    decreases s.len(),
{
    if s.len() == 0 {
        Seq::<char>::empty()
    } else {
        spec_escape(s.drop_last()) + spec_escape_char(s.last())
    }
}

/// Escapes every underscore of a name as `\_`, for use outside code spans.
pub fn escape_name(name: &str) -> (r: String)
    ensures
        r@ == spec_escape(name@),
{
    let n: usize = name.unicode_len();
    let mut out: String = String::new();
    let mut i: usize = 0;
    while i < n
        invariant
            n == name@.len(),
            i <= n,
            out@ == spec_escape(name@.subrange(0, i as int)),
        decreases n - i,
    {
        let c = name.get_char(i);
        if c == '_' {
            out.append("\\_");
            proof {
                reveal_strlit("\\_");
                assert("\\_"@ =~= spec_escape_char('_'));
            }
        } else {
            let piece = name.substring_char(i, i + 1);
            out.append(piece);
            proof {
                assert(piece@ =~= spec_escape_char(c));
            }
        }
        proof {
            let pre = name@.subrange(0, i as int);
            let pre1 = name@.subrange(0, i + 1);
            assert(pre1.drop_last() =~= pre);
            assert(pre1.last() == c);
        }
        i = i + 1;
    }
    proof {
        assert(name@.subrange(0, n as int) =~= name@);
    }
    out
}

/// How many times character `c` occurs in `s`.
pub open spec fn count_char(s: Seq<char>, c: char) -> nat
    decreases s.len(),
{
    if s.len() == 0 {
        0nat
    } else {
        count_char(s.drop_last(), c) + (if s.last() == c {
            1nat
        } else {
            0nat
        })
    }
}

/// How many positions of `s` start the two-character escape `\_`.
pub open spec fn count_escape_pairs(s: Seq<char>) -> nat
    decreases s.len(),
{
    if s.len() < 2 {
        0nat
    } else {
        count_escape_pairs(s.drop_last()) + (if s[s.len() - 2] == '\\' && s.last() == '_' {
            1nat
        } else {
            0nat
        })
    }
}

proof fn lemma_pairs_push(a: Seq<char>, c: char)
    ensures
        count_escape_pairs(a.push(c)) == count_escape_pairs(a) + (if a.len() > 0 && a.last()
            == '\\' && c == '_' {
            1nat
        } else {
            0nat
        }),
{
    let b = a.push(c);
    if a.len() == 0 {
        assert(b.len() < 2);
    } else {
        assert(b.drop_last() =~= a);
        assert(b[b.len() - 2] == a.last());
        assert(b.last() == c);
    }
}

/// Escaping law: a name with `k` underscores escapes to text with exactly
/// `k` occurrences of the two-character escape `\_`, and every underscore
/// of the escaped text is part of such an escape (none is bare).
pub proof fn lemma_escape_underscores(s: Seq<char>)
    ensures
        count_escape_pairs(spec_escape(s)) == count_char(s, '_'),
        forall|i: int|
            0 <= i < spec_escape(s).len() && #[trigger] spec_escape(s)[i] == '_' ==> 0 < i
                && spec_escape(s)[i - 1] == '\\',
    decreases s.len(),
{
    if s.len() == 0 {
    } else {
        lemma_escape_underscores(s.drop_last());
        let e0 = spec_escape(s.drop_last());
        let c = s.last();
        if c == '_' {
            let e1 = e0.push('\\');
            let e2 = e1.push('_');
            assert(spec_escape(s) =~= e2);
            lemma_pairs_push(e0, '\\');
            lemma_pairs_push(e1, '_');
            assert(e1.last() == '\\');
            assert forall|i: int| 0 <= i < e2.len() && #[trigger] e2[i] == '_' implies 0 < i && e2[i
                - 1] == '\\' by {
                if i < e0.len() {
                    assert(e2[i] == e0[i]);
                    assert(e2[i - 1] == e0[i - 1]);
                } else if i == e0.len() {
                    assert(e2[i] == '\\');
                } else {
                    assert(i == e0.len() + 1);
                    assert(e2[i - 1] == '\\');
                }
            }
        } else {
            let e2 = e0.push(c);
            assert(spec_escape(s) =~= e2);
            lemma_pairs_push(e0, c);
            assert forall|i: int| 0 <= i < e2.len() && #[trigger] e2[i] == '_' implies 0 < i && e2[i
                - 1] == '\\' by {
                if i < e0.len() {
                    assert(e2[i] == e0[i]);
                    assert(e2[i - 1] == e0[i - 1]);
                } else {
                    assert(e2[i] == c);
                }
            }
        }
    }
}

/// Drops one carriage return at the end of a line, if present: the line
/// body of a `\r\n` line ending.
pub open spec fn strip_cr(s: Seq<char>) -> Seq<char> {
    if s.len() > 0 && s.last() == '\r' {
        s.drop_last()
    } else {
        s
    }
}

/// The lines of `rest`, with `cur` the part of the current line already
/// read. Lines end at `\n` or `\r\n`; the terminator is not part of the
/// line, and a final line without terminator still counts.
pub open spec fn spec_lines_from(cur: Seq<char>, rest: Seq<char>) -> Seq<Seq<char>>
    decreases rest.len(),
{
    if rest.len() == 0 {
        if cur.len() == 0 {
            Seq::<Seq<char>>::empty()
        } else {
            seq![cur]
        }
    } else if rest[0] == '\n' {
        seq![strip_cr(cur)] + spec_lines_from(Seq::<char>::empty(), rest.drop_first())
    } else {
        spec_lines_from(cur.push(rest[0]), rest.drop_first())
    }
}

/// The lines of a text, split at `\n` or `\r\n` line endings.
pub open spec fn spec_lines(s: Seq<char>) -> Seq<Seq<char>> {
    spec_lines_from(Seq::<char>::empty(), s)
}

/// Splits a text into its lines, at `\n` or `\r\n` line endings.
pub fn split_lines(s: &str) -> (r: Vec<String>)
    ensures
        r.deep_view() == spec_lines(s@),
{
    let n: usize = s.unicode_len();
    let mut acc: Vec<String> = Vec::new();
    let mut cur: String = String::new();
    let mut i: usize = 0;
    proof {
        assert(s@.subrange(0, n as int) =~= s@);
        assert(acc.deep_view() + spec_lines_from(cur@, s@) =~= spec_lines(s@));
    }
    while i < n
        invariant
            n == s@.len(),
            i <= n,
            spec_lines(s@) == acc.deep_view() + spec_lines_from(cur@, s@.subrange(i as int, n as int)),
        decreases n - i,
    {
        let ghost rest = s@.subrange(i as int, n as int);
        let ghost acc0 = acc.deep_view();
        let ghost cur0 = cur@;
        let c = s.get_char(i);
        assert(rest[0] == c);
        if c == '\n' {
            let cur_len: usize = cur.as_str().unicode_len();
            let line: String = if cur_len > 0 && cur.as_str().get_char(cur_len - 1) == '\r' {
                cur.as_str().substring_char(0, cur_len - 1).to_owned()
            } else {
                cur
            };
            proof {
                assert(line@ =~= strip_cr(cur0));
            }
            acc.push(line);
            cur = String::new();
            proof {
                assert(acc.deep_view() =~= acc0.push(strip_cr(cur0)));
                assert(rest.drop_first() =~= s@.subrange(i + 1, n as int));
                assert(acc0 + (seq![strip_cr(cur0)] + spec_lines_from(cur@, rest.drop_first()))
                    =~= acc.deep_view() + spec_lines_from(cur@, s@.subrange(i + 1, n as int)));
            }
        } else {
            let piece = s.substring_char(i, i + 1);
            cur.append(piece);
            proof {
                assert(cur@ =~= cur0.push(c));
                assert(rest.drop_first() =~= s@.subrange(i + 1, n as int));
            }
        }
        i = i + 1;
    }
    proof {
        assert(s@.subrange(n as int, n as int) =~= Seq::<char>::empty());
    }
    if cur.as_str().unicode_len() > 0 {
        let ghost acc0 = acc.deep_view();
        let ghost cur0 = cur@;
        acc.push(cur);
        proof {
            assert(acc.deep_view() =~= acc0.push(cur0));
            assert(acc0.push(cur0) =~= acc0 + seq![cur0]);
        }
    } else {
        proof {
            assert(cur@.len() == 0);
            assert(acc.deep_view() + spec_lines_from(cur@, Seq::<char>::empty()) =~= acc.deep_view());
        }
    }
    acc
}

/// The pieces joined with `sep` between consecutive pieces.
pub open spec fn spec_join(items: Seq<Seq<char>>, sep: Seq<char>) -> Seq<char>
    decreases items.len(),
{
    if items.len() == 0 {
        Seq::<char>::empty()
    } else if items.len() == 1 {
        items[0]
    } else {
        spec_join(items.drop_last(), sep) + sep + items.last()
    }
}

/// Joins the parts with `sep` between consecutive parts.
pub fn join_with(parts: &Vec<String>, sep: &str) -> (r: String)
    ensures
        r@ == spec_join(parts.deep_view(), sep@),
{
    let mut out: String = String::new();
    if parts.len() == 0 {
        return out;
    }
    let mut i: usize = 1;
    out.append(parts[0].as_str());
    proof {
        assert(parts.deep_view().subrange(0, 1).len() == 1);
        assert(parts.deep_view().subrange(0, 1)[0] == parts@[0]@);
        assert(out@ == spec_join(parts.deep_view().subrange(0, 1), sep@));
    }
    while i < parts.len()
        invariant
            1 <= i <= parts@.len(),
            parts@.len() == parts.deep_view().len(),
            out@ == spec_join(parts.deep_view().subrange(0, i as int), sep@),
        decreases parts@.len() - i,
    {
        out.append(sep);
        out.append(parts[i].as_str());
        proof {
            let dv = parts.deep_view();
            let pre1 = dv.subrange(0, i + 1);
            assert(pre1.drop_last() =~= dv.subrange(0, i as int));
            assert(pre1.last() == dv[i as int]);
            assert(pre1.len() >= 2);
        }
        i = i + 1;
    }
    proof {
        assert(parts.deep_view().subrange(0, parts.deep_view().len() as int) =~= parts.deep_view());
    }
    out
}

} // verus!
