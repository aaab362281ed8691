//! The bookmark store's text format: newline-delimited paths, one per line.
//! Reading splits on newlines; blank lines are dropped, so a trailing newline
//! or a stray empty line never becomes a phantom empty-path candidate.
//! Appending writes the path text followed by one newline.

use vstd::prelude::*;
use vstd::string::*;

verus! {

/// The candidate paths in store text `s` when `cur` is the partial line read
/// so far: lines are separated by `'\n'` and empty lines are dropped.
pub open spec fn parse_rest(s: Seq<char>, cur: Seq<char>) -> Seq<Seq<char>>
    decreases s.len(),
{
    if s.len() == 0 {
        if cur.len() > 0 {
            seq![cur]
        } else {
            Seq::empty()
        }
    } else if s[0] == '\n' {
        if cur.len() > 0 {
            seq![cur] + parse_rest(s.drop_first(), Seq::empty())
        } else {
            parse_rest(s.drop_first(), Seq::empty())
        }
    } else {
        parse_rest(s.drop_first(), cur.push(s[0]))
    }
}

/// The candidate paths a store text denotes: its non-empty lines, in file
/// order, duplicates preserved.
pub open spec fn store_paths(s: Seq<char>) -> Seq<Seq<char>> {
    parse_rest(s, Seq::empty())
}

/// Splits store text into candidate paths: one per non-empty line, in file
/// order, duplicates preserved, blank lines dropped.
pub fn parse_store(text: &str) -> (paths: Vec<String>)
    ensures
        paths@.map_values(|p: String| p@) == store_paths(text@),
{
    let n = text.unicode_len();
    let mut paths: Vec<String> = Vec::new();
    let mut i: usize = 0;
    let mut start: usize = 0;
    proof {
        assert(text@.skip(0) =~= text@);
        assert(text@.subrange(0, 0) =~= Seq::<char>::empty());
        assert(paths@.map_values(|p: String| p@) =~= Seq::<Seq<char>>::empty());
        assert(Seq::<Seq<char>>::empty() + parse_rest(text@, Seq::empty()) =~= parse_rest(
            text@,
            Seq::empty(),
        ));
    }
    while i < n
        invariant
            n as nat == text@.len(),
            start <= i <= n,
            forall|k: int| start <= k < i ==> text@[k] != '\n',
            paths@.map_values(|p: String| p@) + parse_rest(
                text@.skip(i as int),
                text@.subrange(start as int, i as int),
            ) == store_paths(text@),
        decreases n - i,
    {
        let ghost cur = text@.subrange(start as int, i as int);
        let ghost prefix = paths@.map_values(|p: String| p@);
        assert(text@.skip(i as int)[0] == text@[i as int]);
        assert(text@.skip(i as int).drop_first() =~= text@.skip(i as int + 1));
        let c = text.get_char(i);
        if c == '\n' {
            if start < i {
                let line = text.substring_char(start, i);
                let owned = line.to_owned();
                paths.push(owned);
                proof {
                    assert(paths@.map_values(|p: String| p@) =~= prefix.push(cur));
                    assert(prefix.push(cur) + parse_rest(text@.skip(i as int + 1), Seq::empty())
                        =~= prefix + (seq![cur] + parse_rest(
                        text@.skip(i as int + 1),
                        Seq::empty(),
                    )));
                }
            }
            start = i + 1;
            proof {
                assert(text@.subrange(start as int, start as int) =~= Seq::<char>::empty());
            }
        } else {
            proof {
                assert(text@.subrange(start as int, i as int + 1) =~= cur.push(text@[i as int]));
            }
        }
        i = i + 1;
    }
    proof {
        assert(text@.skip(n as int) =~= Seq::<char>::empty());
    }
    if start < n {
        let ghost prefix = paths@.map_values(|p: String| p@);
        let ghost cur = text@.subrange(start as int, n as int);
        let line = text.substring_char(start, n);
        let owned = line.to_owned();
        paths.push(owned);
        proof {
            assert(paths@.map_values(|p: String| p@) =~= prefix.push(cur));
            assert(prefix.push(cur) =~= prefix + seq![cur]);
        }
    }
    paths
}

/// The exact text the `add` command appends to the store for one path: the
/// path text followed by one newline.
pub fn format_store_entry(path: &str) -> (r: String)
    ensures
        r@ == path@ + seq!['\n'],
{
    let mut r = String::from_str(path);
    r.append("\n");
    proof {
        reveal_strlit("\n");
        assert(r@ =~= path@ + seq!['\n']);
    }
    r
}

/// Parsing text that ends on a line boundary goes line group by line group:
/// the parse of `s + t` is the parse of `s` followed by the parse of `t`.
proof fn lemma_parse_split(s: Seq<char>, t: Seq<char>, cur: Seq<char>)
    requires
        s.len() > 0,
        s.last() == '\n',
    ensures
        parse_rest(s + t, cur) == parse_rest(s, cur) + parse_rest(t, Seq::empty()),
    decreases s.len(),
{
    assert((s + t).len() > 0);
    assert((s + t)[0] == s[0]);
    assert((s + t).drop_first() =~= s.drop_first() + t);
    if s.len() == 1 {
        assert(s[0] == '\n');
        assert(s.drop_first() =~= Seq::<char>::empty());
        assert(s.drop_first() + t =~= t);
        assert(parse_rest(Seq::<char>::empty(), Seq::<char>::empty())
            == Seq::<Seq<char>>::empty());
        if cur.len() > 0 {
            assert(parse_rest(s, cur) =~= seq![cur]);
            assert(parse_rest(s + t, cur) == seq![cur] + parse_rest(t, Seq::empty()));
        } else {
            assert(parse_rest(s, cur) =~= Seq::<Seq<char>>::empty());
            assert(parse_rest(s, cur) + parse_rest(t, Seq::empty()) =~= parse_rest(
                t,
                Seq::empty(),
            ));
        }
    } else {
        assert(s.drop_first().last() == s.last());
        if s[0] == '\n' {
            lemma_parse_split(s.drop_first(), t, Seq::empty());
            if cur.len() > 0 {
                assert(seq![cur] + (parse_rest(s.drop_first(), Seq::empty()) + parse_rest(
                    t,
                    Seq::empty(),
                )) =~= (seq![cur] + parse_rest(s.drop_first(), Seq::empty())) + parse_rest(
                    t,
                    Seq::empty(),
                ));
            }
        } else {
            lemma_parse_split(s.drop_first(), t, cur.push(s[0]));
        }
    }
}

/// One newline-terminated line without inner newlines parses to exactly that
/// line, prefixed by whatever partial line came before it.
proof fn lemma_parse_line(p: Seq<char>, cur: Seq<char>)
    requires
        !p.contains('\n'),
    ensures
        parse_rest(p + seq!['\n'], cur) == (if (cur + p).len() > 0 {
            seq![cur + p]
        } else {
            Seq::<Seq<char>>::empty()
        }),
    decreases p.len(),
{
    let s = p + seq!['\n'];
    if p.len() == 0 {
        assert(s[0] == '\n');
        assert(s.drop_first() =~= Seq::<char>::empty());
        assert(parse_rest(Seq::<char>::empty(), Seq::<char>::empty())
            == Seq::<Seq<char>>::empty());
        assert(cur + p =~= cur);
        if cur.len() > 0 {
            assert(parse_rest(s, cur) == seq![cur] + parse_rest(
                Seq::<char>::empty(),
                Seq::<char>::empty(),
            ));
            assert(seq![cur] + Seq::<Seq<char>>::empty() =~= seq![cur]);
        } else {
            assert((cur + p).len() == 0);
        }
    } else {
        assert(s[0] == p[0]);
        if p[0] == '\n' {
            assert(p.contains('\n'));
        }
        assert(s.drop_first() =~= p.drop_first() + seq!['\n']);
        assert(!p.drop_first().contains('\n')) by {
            if p.drop_first().contains('\n') {
                let k = choose|k: int|
                    0 <= k < p.drop_first().len() && p.drop_first()[k] == '\n';
                assert(p[k + 1] == '\n');
                assert(p.contains('\n'));
            }
        }
        lemma_parse_line(p.drop_first(), cur.push(p[0]));
        assert(parse_rest(s, cur) == parse_rest(p.drop_first() + seq!['\n'], cur.push(p[0])));
        assert(cur.push(p[0]) + p.drop_first() =~= cur + p);
        assert((cur + p).len() > 0);
    }
}

/// Law: appending one path entry to a store text that is empty or ends on a
/// line boundary, then reloading, yields exactly the old candidates with the
/// new path at the end — a store write is durably visible to the next read.
/// (The `add` command always writes the terminating newline, so a store this
/// tool wrote always satisfies the boundary premise; an unterminated last
/// line, possible only by hand-editing, would merge with the appended path.)
pub proof fn lemma_append_round_trip(s: Seq<char>, p: Seq<char>)
    requires
        s.len() == 0 || s.last() == '\n',
        p.len() > 0,
        !p.contains('\n'),
    ensures
        store_paths(s + p + seq!['\n']) == store_paths(s).push(p),
{
    if s.len() == 0 {
        assert(s + p + seq!['\n'] =~= p + seq!['\n']);
        lemma_parse_line(p, Seq::empty());
        assert(Seq::<char>::empty() + p =~= p);
        assert(store_paths(s) =~= Seq::<Seq<char>>::empty());
        assert(store_paths(s).push(p) =~= seq![p]);
        assert(store_paths(s + p + seq!['\n']) =~= seq![p]);
    } else {
        assert(s + p + seq!['\n'] =~= s + (p + seq!['\n']));
        lemma_parse_split(s, p + seq!['\n'], Seq::empty());
        lemma_parse_line(p, Seq::empty());
        assert(Seq::<char>::empty() + p =~= p);
        assert(store_paths(s) + seq![p] =~= store_paths(s).push(p));
    }
}

} // verus!
