//! A line-oriented record format: fields separated by newlines, with
//! backslash and newline escaped inside a field.
use vstd::prelude::*;

verus! {

/// The characters that stand for `c` inside an encoded field.
pub open spec fn escape_char(c: char) -> Seq<char> {
    if c == '\\' {
        seq!['\\', '\\']
    } else if c == '\n' {
        seq!['\\', 'n']
    } else {
        seq![c]
    }
}

/// A field as it is written: each character escaped in turn.
pub open spec fn escape(s: Seq<char>) -> Seq<char>
    decreases s.len(),
{
    if s.len() == 0 {
        Seq::empty()
    } else {
        escape(s.drop_last()) + escape_char(s.last())
    }
}

/// Several fields as they are written: escaped, one newline between two.
pub open spec fn join(fs: Seq<Seq<char>>) -> Seq<char>
    decreases fs.len(),
{
    if fs.len() == 0 {
        Seq::empty()
    } else if fs.len() == 1 {
        escape(fs[0])
    } else {
        join(fs.drop_last()) + seq!['\n'] + escape(fs.last())
    }
}

/// Where the reader stands after some prefix of an encoded text.
pub struct ReadState {
    pub done: Seq<Seq<char>>,
    pub cur: Seq<char>,
    pub escaped: bool,
    pub bad: bool,
}

pub open spec fn start_state() -> ReadState {
    ReadState { done: Seq::empty(), cur: Seq::empty(), escaped: false, bad: false }
}

/// The reader's move on one character.
pub open spec fn step(st: ReadState, c: char) -> ReadState {
    if st.bad {
        st
    } else if st.escaped {
        if c == '\\' {
            ReadState { cur: st.cur.push('\\'), escaped: false, ..st }
        } else if c == 'n' {
            ReadState { cur: st.cur.push('\n'), escaped: false, ..st }
        } else {
            ReadState { bad: true, ..st }
        }
    } else if c == '\\' {
        ReadState { escaped: true, ..st }
    } else if c == '\n' {
        ReadState { done: st.done.push(st.cur), cur: Seq::empty(), ..st }
    } else {
        ReadState { cur: st.cur.push(c), ..st }
    }
}

/// The reader's state after all of `s`.
pub open spec fn run(s: Seq<char>) -> ReadState
    decreases s.len(),
{
    if s.len() == 0 {
        start_state()
    } else {
        step(run(s.drop_last()), s.last())
    }
}

/// The fields that an encoded text holds, or `None` where it is malformed
/// (an unknown escape, or a lone backslash at the end).
pub open spec fn parse(s: Seq<char>) -> Option<Seq<Seq<char>>> {
    let st = run(s);
    if st.bad || st.escaped {
        None
    } else {
        Some(st.done.push(st.cur))
    }
}

proof fn lemma_run_push(s: Seq<char>, c: char)
    ensures
        run(s.push(c)) == step(run(s), c),
{
    assert(s.push(c).drop_last() =~= s);
}

proof fn lemma_run_escape(p: Seq<char>, f: Seq<char>)
    requires
        !run(p).bad,
        !run(p).escaped,
    ensures
        run(p + escape(f)) == (ReadState { cur: run(p).cur + f, ..run(p) }),
    decreases f.len(),
{
    if f.len() == 0 {
        assert(p + escape(f) =~= p);
        assert(run(p).cur + f =~= run(p).cur);
    } else {
        let g = f.drop_last();
        let c = f.last();
        lemma_run_escape(p, g);
        let q = p + escape(g);
        assert(p + escape(f) =~= q + escape_char(c));
        assert(run(p).cur + g.push(c) =~= (run(p).cur + g).push(c));
        assert(g.push(c) =~= f);
        if c == '\\' {
            assert(q + escape_char(c) =~= q.push('\\').push('\\'));
            lemma_run_push(q, '\\');
            lemma_run_push(q.push('\\'), '\\');
        } else if c == '\n' {
            assert(q + escape_char(c) =~= q.push('\\').push('n'));
            lemma_run_push(q, '\\');
            lemma_run_push(q.push('\\'), 'n');
        } else {
            assert(q + escape_char(c) =~= q.push(c));
            lemma_run_push(q, c);
        }
    }
}

proof fn lemma_run_join(fs: Seq<Seq<char>>)
    requires
        fs.len() >= 1,
    ensures
        run(join(fs)) == (ReadState {
            done: fs.drop_last(),
            cur: fs.last(),
            escaped: false,
            bad: false,
        }),
    decreases fs.len(),
{
    if fs.len() == 1 {
        lemma_run_escape(Seq::empty(), fs[0]);
        assert(Seq::<char>::empty() + escape(fs[0]) =~= escape(fs[0]));
        assert(Seq::<char>::empty() + fs[0] =~= fs[0]);
        assert(fs.drop_last() =~= Seq::<Seq<char>>::empty());
        assert(run(Seq::<char>::empty()) == start_state());
    } else {
        let init = fs.drop_last();
        lemma_run_join(init);
        let p = join(init);
        lemma_run_push(p, '\n');
        assert(p + seq!['\n'] =~= p.push('\n'));
        let q = p.push('\n');
        lemma_run_escape(q, fs.last());
        assert(init.drop_last().push(init.last()) =~= init);
        assert(Seq::<char>::empty() + fs.last() =~= fs.last());
        assert(init =~= fs.drop_last());
    }
}

/// Reading back what was written gives the same fields, for any non-empty
/// list of fields with any characters in them.
pub proof fn lemma_parse_join(fs: Seq<Seq<char>>)
    requires
        fs.len() >= 1,
    ensures
        parse(join(fs)) == Some(fs),
{
    lemma_run_join(fs);
    assert(fs.drop_last().push(fs.last()) =~= fs);
}

/// The views of a list of strings.
pub open spec fn views(fs: Seq<String>) -> Seq<Seq<char>> {
    fs.map_values(|f: String| f@)
}

proof fn lemma_escape_push(s: Seq<char>, c: char)
    ensures
        escape(s.push(c)) == escape(s) + escape_char(c),
{
    assert(s.push(c).drop_last() =~= s);
}

proof fn lemma_bad_stays(p: Seq<char>, t: Seq<char>)
    requires
        run(p).bad,
    ensures
        run(p + t).bad,
    decreases t.len(),
{
    if t.len() == 0 {
        assert(p + t =~= p);
    } else {
        lemma_bad_stays(p, t.drop_last());
        lemma_run_push(p + t.drop_last(), t.last());
        assert((p + t.drop_last()).push(t.last()) =~= p + t);
    }
}

/// Appends the escaped form of `s` to `out`.
fn escape_into(out: &mut String, s: &str)
    ensures
        final(out)@ == old(out)@ + escape(s@),
{
    let n = s.unicode_len();
    let mut i: usize = 0;
    proof {
        reveal_strlit("\\\\");
        reveal_strlit("\\n");
        assert(s@.subrange(0, 0) =~= Seq::<char>::empty());
        assert(out@ + escape(Seq::<char>::empty()) =~= out@);
    }
    while i < n
        invariant
            n == s@.len(),
            i <= n,
            out@ == old(out)@ + escape(s@.subrange(0, i as int)),
        decreases n - i,
    {
        let c = s.get_char(i);
        let ghost before = out@;
        if c == '\\' {
            out.append("\\\\");
            proof {
                reveal_strlit("\\\\");
                assert("\\\\"@ =~= seq!['\\', '\\']);
            }
        } else if c == '\n' {
            out.append("\\n");
            proof {
                reveal_strlit("\\n");
                assert("\\n"@ =~= seq!['\\', 'n']);
            }
        } else {
            out.append(s.substring_char(i, i + 1));
        }
        proof {
            let pre = s@.subrange(0, i as int);
            lemma_escape_push(pre, c);
            assert(pre.push(c) =~= s@.subrange(0, i + 1));
            if c != '\\' && c != '\n' {
                assert(s@.subrange(i as int, i + 1) =~= seq![c]);
            }
            assert(out@ =~= old(out)@ + escape(s@.subrange(0, i + 1)));
        }
        i = i + 1;
    }
    assert(s@.subrange(0, n as int) =~= s@);
}

/// Writes the fields in the record format.
pub fn encode_fields(fs: &Vec<String>) -> (r: String)
    requires
        fs@.len() >= 1,
    ensures
        r@ == join(views(fs@)),
{
    let mut out = String::new();
    let mut i: usize = 0;
    while i < fs.len()
        invariant
            1 <= fs@.len(),
            i <= fs@.len(),
            i == 0 ==> out@ == Seq::<char>::empty(),
            i > 0 ==> out@ == join(views(fs@.subrange(0, i as int))),
        decreases fs@.len() - i,
    {
        let ghost before = out@;
        if i > 0 {
            out.append("\n");
            proof { reveal_strlit("\n"); }
        }
        escape_into(&mut out, fs[i].as_str());
        proof {
            let pre = views(fs@.subrange(0, i as int));
            let next = views(fs@.subrange(0, i + 1));
            assert(next.drop_last() =~= pre);
            assert(next.last() == fs@[i as int]@);
            if i == 0 {
                assert(next.len() == 1);
                assert(out@ =~= escape(next[0]));
            } else {
                assert(out@ =~= join(pre) + seq!['\n'] + escape(next.last()));
            }
        }
        i = i + 1;
    }
    assert(fs@.subrange(0, fs@.len() as int) =~= fs@);
    out
}

/// Reads the fields of a record; `None` where the text is malformed.
pub fn decode_fields(text: &str) -> (r: Option<Vec<String>>)
    ensures
        r matches Some(v) ==> parse(text@) == Some(views(v@)),
        r is None ==> parse(text@) is None,
{
    let n = text.unicode_len();
    let mut done: Vec<String> = Vec::new();
    let mut cur = String::new();
    let mut escaped = false;
    let mut i: usize = 0;
    proof {
        reveal_strlit("\\");
        reveal_strlit("\n");
        assert(text@.subrange(0, 0) =~= Seq::<char>::empty());
        assert(views(done@) =~= Seq::<Seq<char>>::empty());
    }
    while i < n
        invariant
            n == text@.len(),
            i <= n,
            run(text@.subrange(0, i as int)) == (ReadState {
                done: views(done@),
                cur: cur@,
                escaped,
                bad: false,
            }),
        decreases n - i,
    {
        let c = text.get_char(i);
        proof {
            lemma_run_push(text@.subrange(0, i as int), c);
            assert(text@.subrange(0, i as int).push(c) =~= text@.subrange(0, i + 1));
        }
        if escaped {
            if c == '\\' {
                cur.append("\\");
                proof {
                    reveal_strlit("\\");
                    assert("\\"@ =~= seq!['\\']);
                }
            } else if c == 'n' {
                cur.append("\n");
                proof {
                    reveal_strlit("\n");
                    assert("\n"@ =~= seq!['\n']);
                }
            } else {
                proof {
                    lemma_bad_stays(text@.subrange(0, i + 1), text@.subrange(i + 1, n as int));
                    assert(text@.subrange(0, i + 1) + text@.subrange(i + 1, n as int) =~= text@);
                }
                return None;
            }
            escaped = false;
        } else if c == '\\' {
            escaped = true;
        } else if c == '\n' {
            let ghost old_done = done@;
            done.push(cur);
            cur = String::new();
            proof {
                assert(views(done@) =~= views(old_done).push(done@.last()@));
            }
        } else {
            cur.append(text.substring_char(i, i + 1));
            proof {
                assert(text@.subrange(i as int, i + 1) =~= seq![c]);
            }
        }
        proof {
            assert(cur@ =~= run(text@.subrange(0, i + 1)).cur);
        }
        i = i + 1;
    }
    assert(text@.subrange(0, n as int) =~= text@);
    if escaped {
        return None;
    }
    let ghost old_done = done@;
    done.push(cur);
    proof {
        assert(views(done@) =~= views(old_done).push(done@.last()@));
    }
    Some(done)
}

} // verus!
