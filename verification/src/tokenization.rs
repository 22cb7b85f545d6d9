use vstd::prelude::*;

use crate::text::chars_to_string;
use crate::text::is_ws;
use crate::text::is_ws_char;
use crate::text::str_to_chars;

verus! {

/// Tokenizer state: outside quotes, inside `'...'`, or inside `"..."`.
#[derive(Clone, Copy)]
pub enum TokState {
    Normal,
    SingleQuoted,
    DoubleQuoted,
}

/// The characters a backslash escapes inside double quotes.
pub open spec fn dq_escapable(c: char) -> bool {
    c == '"' || c == '\\' || c == '$' || c == '`' || c == '\n'
}

/// A whole run of the tokenizer from an intermediate configuration:
/// `s` is the unread input, `st` the current state, `cur` the token being
/// accumulated, `acc` the tokens already emitted. At the end of input the
/// pending token is flushed if it is non-empty.
pub open spec fn tok_from(
    s: Seq<char>,
    st: TokState,
    cur: Seq<char>,
    acc: Seq<Seq<char>>,
) -> Seq<Seq<char>>
    decreases s.len(),
{
    if s.len() == 0 {
        if cur.len() > 0 {
            acc.push(cur)
        } else {
            acc
        }
    } else {
        let c = s[0];
        let rest = s.skip(1);
        match st {
            TokState::Normal => {
                if c == '\'' {
                    tok_from(rest, TokState::SingleQuoted, cur, acc)
                } else if c == '"' {
                    tok_from(rest, TokState::DoubleQuoted, cur, acc)
                } else if c == '\\' {
                    if rest.len() > 0 {
                        tok_from(rest.skip(1), TokState::Normal, cur.push(rest[0]), acc)
                    } else {
                        tok_from(rest, TokState::Normal, cur, acc)
                    }
                } else if is_ws_char(c) {
                    if cur.len() > 0 {
                        tok_from(rest, TokState::Normal, Seq::empty(), acc.push(cur))
                    } else {
                        tok_from(rest, TokState::Normal, cur, acc)
                    }
                } else {
                    tok_from(rest, TokState::Normal, cur.push(c), acc)
                }
            },
            TokState::SingleQuoted => {
                if c == '\'' {
                    tok_from(rest, TokState::Normal, cur, acc)
                } else {
                    tok_from(rest, TokState::SingleQuoted, cur.push(c), acc)
                }
            },
            TokState::DoubleQuoted => {
                if c == '"' {
                    tok_from(rest, TokState::Normal, cur, acc)
                } else if c == '\\' {
                    if rest.len() > 0 {
                        if dq_escapable(rest[0]) {
                            tok_from(rest.skip(1), TokState::DoubleQuoted, cur.push(rest[0]), acc)
                        } else {
                            tok_from(rest, TokState::DoubleQuoted, cur.push('\\'), acc)
                        }
                    } else {
                        tok_from(rest, TokState::DoubleQuoted, cur, acc)
                    }
                } else {
                    tok_from(rest, TokState::DoubleQuoted, cur.push(c), acc)
                }
            },
        }
    }
}

/// The token sequence of a raw input line.
pub open spec fn spec_tokenize(s: Seq<char>) -> Seq<Seq<char>> {
    tok_from(s, TokState::Normal, Seq::empty(), Seq::empty())
}

fn tokenize_chars(cs: &Vec<char>) -> (toks: Vec<Vec<char>>)
    ensures
        toks.deep_view() == spec_tokenize(cs@),
{
    let n = cs.len();
    let mut toks: Vec<Vec<char>> = Vec::new();
    let mut cur: Vec<char> = Vec::new();
    let mut st = TokState::Normal;
    let mut i: usize = 0;
    proof {
        assert(toks.deep_view() =~= Seq::<Seq<char>>::empty());
        assert(cs@.skip(0) =~= cs@);
    }
    while i < n
        invariant
            n == cs@.len(),
            i <= n,
            tok_from(cs@.skip(i as int), st, cur@, toks.deep_view()) == spec_tokenize(cs@),
        decreases n - i,
    {
        let c = cs[i];
        proof {
            assert(cs@.skip(i as int)[0] == cs@[i as int]);
            assert(cs@.skip(i as int).skip(1) =~= cs@.skip(i as int + 1));
        }
        match st {
            TokState::Normal => {
                if c == '\'' {
                    st = TokState::SingleQuoted;
                    i = i + 1;
                } else if c == '"' {
                    st = TokState::DoubleQuoted;
                    i = i + 1;
                } else if c == '\\' {
                    if i + 1 < n {
                        proof {
                            assert(cs@.skip(i as int).skip(1)[0] == cs@[i as int + 1]);
                            assert(cs@.skip(i as int).skip(1).skip(1) =~= cs@.skip(i as int + 2));
                        }
                        cur.push(cs[i + 1]);
                        i = i + 2;
                    } else {
                        i = i + 1;
                    }
                } else if is_ws(c) {
                    if cur.len() > 0 {
                        let ghost pre = toks.deep_view();
                        let ghost cur_v = cur@;
                        toks.push(cur);
                        cur = Vec::new();
                        proof {
                            assert(toks.deep_view() =~~= pre.push(cur_v));
                        }
                    }
                    i = i + 1;
                } else {
                    cur.push(c);
                    i = i + 1;
                }
            },
            TokState::SingleQuoted => {
                if c == '\'' {
                    st = TokState::Normal;
                } else {
                    cur.push(c);
                }
                i = i + 1;
            },
            TokState::DoubleQuoted => {
                if c == '"' {
                    st = TokState::Normal;
                    i = i + 1;
                } else if c == '\\' {
                    if i + 1 < n {
                        proof {
                            assert(cs@.skip(i as int).skip(1)[0] == cs@[i as int + 1]);
                            assert(cs@.skip(i as int).skip(1).skip(1) =~= cs@.skip(i as int + 2));
                        }
                        let next = cs[i + 1];
                        if next == '"' || next == '\\' || next == '$' || next == '`'
                            || next == '\n' {
                            cur.push(next);
                            i = i + 2;
                        } else {
                            cur.push('\\');
                            i = i + 1;
                        }
                    } else {
                        i = i + 1;
                    }
                } else {
                    cur.push(c);
                    i = i + 1;
                }
            },
        }
    }
    proof {
        assert(cs@.skip(n as int) =~= Seq::<char>::empty());
    }
    if cur.len() > 0 {
        let ghost pre = toks.deep_view();
        let ghost cur_v = cur@;
        toks.push(cur);
        proof {
            assert(toks.deep_view() =~~= pre.push(cur_v));
        }
    }
    toks
}

/// Characters that carry quoting or escaping syntax.
pub open spec fn is_quoting_char(c: char) -> bool {
    c == '\'' || c == '"' || c == '\\'
}

/// All tokens of a sequence, concatenated in order.
pub open spec fn concat_all(ts: Seq<Seq<char>>) -> Seq<char>
    decreases ts.len(),
{
    if ts.len() == 0 {
        Seq::empty()
    } else {
        ts[0] + concat_all(ts.skip(1))
    }
}

/// The non-whitespace characters of a sequence, in order.
pub open spec fn keep_non_ws(s: Seq<char>) -> Seq<char>
    decreases s.len(),
{
    if s.len() == 0 {
        Seq::empty()
    } else if is_ws_char(s[0]) {
        keep_non_ws(s.skip(1))
    } else {
        seq![s[0]] + keep_non_ws(s.skip(1))
    }
}

proof fn lemma_concat_snoc(ts: Seq<Seq<char>>, x: Seq<char>)
    ensures
        concat_all(ts.push(x)) == concat_all(ts) + x,
    decreases ts.len(),
{
    if ts.len() == 0 {
        assert(ts.push(x)[0] == x);
        assert(ts.push(x).skip(1) =~= Seq::<Seq<char>>::empty());
        assert(concat_all(Seq::<Seq<char>>::empty()) == Seq::<char>::empty());
        assert(concat_all(ts.push(x)) == x + Seq::<char>::empty());
        assert(x + Seq::<char>::empty() =~= x);
        assert(Seq::<char>::empty() + x =~= x);
    } else {
        assert(ts.push(x)[0] == ts[0]);
        assert(ts.push(x).skip(1) =~= ts.skip(1).push(x));
        lemma_concat_snoc(ts.skip(1), x);
        assert(concat_all(ts.push(x)) == ts[0] + (concat_all(ts.skip(1)) + x));
        assert(ts[0] + (concat_all(ts.skip(1)) + x) =~= (ts[0] + concat_all(ts.skip(1))) + x);
    }
}

proof fn lemma_tok_from_plain_content(s: Seq<char>, cur: Seq<char>, acc: Seq<Seq<char>>)
    requires
        forall|i: int| 0 <= i < s.len() ==> !is_quoting_char(#[trigger] s[i]),
    ensures
        concat_all(tok_from(s, TokState::Normal, cur, acc)) == concat_all(acc) + cur
            + keep_non_ws(s),
    decreases s.len(),
{
    if s.len() == 0 {
        if cur.len() > 0 {
            lemma_concat_snoc(acc, cur);
        }
        assert(concat_all(acc) + cur + Seq::<char>::empty() =~= concat_all(acc) + cur);
    } else {
        let c = s[0];
        let rest = s.skip(1);
        assert(forall|i: int| 0 <= i < rest.len() ==> !is_quoting_char(#[trigger] rest[i]));
        if is_ws_char(c) {
            if cur.len() > 0 {
                lemma_tok_from_plain_content(rest, Seq::empty(), acc.push(cur));
                lemma_concat_snoc(acc, cur);
                assert((concat_all(acc) + cur) + Seq::<char>::empty() + keep_non_ws(rest)
                    =~= concat_all(acc) + cur + keep_non_ws(rest));
            } else {
                lemma_tok_from_plain_content(rest, cur, acc);
                assert(concat_all(acc) + Seq::<char>::empty() + keep_non_ws(rest) =~= concat_all(
                    acc,
                ) + cur + keep_non_ws(rest));
            }
        } else {
            lemma_tok_from_plain_content(rest, cur.push(c), acc);
            assert(concat_all(acc) + cur.push(c) + keep_non_ws(rest) =~= concat_all(acc) + cur + (
            seq![c] + keep_non_ws(rest)));
        }
    }
}

/// Law: on a line free of quoting and escaping syntax, tokenizing preserves
/// exactly the non-whitespace content, in order: the concatenation of the
/// tokens is the line with its whitespace removed.
pub proof fn lemma_tokenize_preserves_content(s: Seq<char>)
    requires
        forall|i: int| 0 <= i < s.len() ==> !is_quoting_char(#[trigger] s[i]),
    ensures
        concat_all(spec_tokenize(s)) == keep_non_ws(s),
{
    lemma_tok_from_plain_content(s, Seq::empty(), Seq::empty());
    assert(concat_all(Seq::<Seq<char>>::empty()) + Seq::<char>::empty() + keep_non_ws(s)
        =~= keep_non_ws(s));
}

/// Every token of a sequence is non-empty.
pub open spec fn all_nonempty(ts: Seq<Seq<char>>) -> bool {
    forall|k: int| 0 <= k < ts.len() ==> #[trigger] ts[k].len() > 0
}

proof fn lemma_all_nonempty_push(acc: Seq<Seq<char>>, cur: Seq<char>)
    requires
        all_nonempty(acc),
        cur.len() > 0,
    ensures
        all_nonempty(acc.push(cur)),
{
    assert forall|k: int| 0 <= k < acc.push(cur).len() implies #[trigger] acc.push(cur)[k].len()
        > 0 by {
        if k < acc.len() {
            assert(acc.push(cur)[k] == acc[k]);
        } else {
            assert(acc.push(cur)[k] == cur);
        }
    }
}

proof fn lemma_tok_from_nonempty(s: Seq<char>, st: TokState, cur: Seq<char>, acc: Seq<Seq<char>>)
    requires
        all_nonempty(acc),
    ensures
        all_nonempty(tok_from(s, st, cur, acc)),
    decreases s.len(),
{
    if s.len() == 0 {
        if cur.len() > 0 {
            lemma_all_nonempty_push(acc, cur);
            assert(tok_from(s, st, cur, acc) == acc.push(cur));
        } else {
            assert(tok_from(s, st, cur, acc) == acc);
        }
    } else {
        let rest = s.skip(1);
        match st {
            TokState::Normal => {
                if s[0] == '\'' {
                    lemma_tok_from_nonempty(rest, TokState::SingleQuoted, cur, acc);
                    assert(tok_from(s, st, cur, acc) == tok_from(rest, TokState::SingleQuoted, cur, acc));
                } else if s[0] == '"' {
                    lemma_tok_from_nonempty(rest, TokState::DoubleQuoted, cur, acc);
                    assert(tok_from(s, st, cur, acc) == tok_from(rest, TokState::DoubleQuoted, cur, acc));
                } else if s[0] == '\\' {
                    if rest.len() > 0 {
                        lemma_tok_from_nonempty(rest.skip(1), TokState::Normal, cur.push(rest[0]), acc);
                        assert(tok_from(s, st, cur, acc) == tok_from(rest.skip(1), TokState::Normal, cur.push(rest[0]), acc));
                    } else {
                        lemma_tok_from_nonempty(rest, TokState::Normal, cur, acc);
                        assert(tok_from(s, st, cur, acc) == tok_from(rest, TokState::Normal, cur, acc));
                    }
                } else if is_ws_char(s[0]) {
                    if cur.len() > 0 {
                        lemma_all_nonempty_push(acc, cur);
                        lemma_tok_from_nonempty(rest, TokState::Normal, Seq::empty(), acc.push(cur));
                        assert(tok_from(s, st, cur, acc) == tok_from(rest, TokState::Normal, Seq::empty(), acc.push(cur)));
                    } else {
                        lemma_tok_from_nonempty(rest, TokState::Normal, cur, acc);
                        assert(tok_from(s, st, cur, acc) == tok_from(rest, TokState::Normal, cur, acc));
                    }
                } else {
                    lemma_tok_from_nonempty(rest, TokState::Normal, cur.push(s[0]), acc);
                    assert(tok_from(s, st, cur, acc) == tok_from(rest, TokState::Normal, cur.push(s[0]), acc));
                }
            },
            TokState::SingleQuoted => {
                if s[0] == '\'' {
                    lemma_tok_from_nonempty(rest, TokState::Normal, cur, acc);
                    assert(tok_from(s, st, cur, acc) == tok_from(rest, TokState::Normal, cur, acc));
                } else {
                    lemma_tok_from_nonempty(rest, TokState::SingleQuoted, cur.push(s[0]), acc);
                    assert(tok_from(s, st, cur, acc) == tok_from(rest, TokState::SingleQuoted, cur.push(s[0]), acc));
                }
            },
            TokState::DoubleQuoted => {
                if s[0] == '"' {
                    lemma_tok_from_nonempty(rest, TokState::Normal, cur, acc);
                    assert(tok_from(s, st, cur, acc) == tok_from(rest, TokState::Normal, cur, acc));
                } else if s[0] == '\\' {
                    if rest.len() > 0 {
                        if dq_escapable(rest[0]) {
                            lemma_tok_from_nonempty(rest.skip(1), TokState::DoubleQuoted, cur.push(rest[0]), acc);
                            assert(tok_from(s, st, cur, acc) == tok_from(rest.skip(1), TokState::DoubleQuoted, cur.push(rest[0]), acc));
                        } else {
                            lemma_tok_from_nonempty(rest, TokState::DoubleQuoted, cur.push('\\'), acc);
                            assert(tok_from(s, st, cur, acc) == tok_from(rest, TokState::DoubleQuoted, cur.push('\\'), acc));
                        }
                    } else {
                        lemma_tok_from_nonempty(rest, TokState::DoubleQuoted, cur, acc);
                        assert(tok_from(s, st, cur, acc) == tok_from(rest, TokState::DoubleQuoted, cur, acc));
                    }
                } else {
                    lemma_tok_from_nonempty(rest, TokState::DoubleQuoted, cur.push(s[0]), acc);
                    assert(tok_from(s, st, cur, acc) == tok_from(rest, TokState::DoubleQuoted, cur.push(s[0]), acc));
                }
            },
        }
    }
}

proof fn lemma_tok_sq_runs_to_close(w: Seq<char>, cur: Seq<char>, acc: Seq<Seq<char>>)
    requires
        forall|i: int| 0 <= i < w.len() ==> w[i] != '\'',
    ensures
        tok_from(w + seq!['\''], TokState::SingleQuoted, cur, acc) == if (cur + w).len() > 0 {
            acc.push(cur + w)
        } else {
            acc
        },
    decreases w.len(),
{
    let s = w + seq!['\''];
    if w.len() == 0 {
        assert(s[0] == '\'');
        assert(s.skip(1) =~= Seq::<char>::empty());
        assert(tok_from(s, TokState::SingleQuoted, cur, acc) == tok_from(
            s.skip(1),
            TokState::Normal,
            cur,
            acc,
        ));
        assert(tok_from(s.skip(1), TokState::Normal, cur, acc) == if cur.len() > 0 {
            acc.push(cur)
        } else {
            acc
        });
        assert(cur + w =~= cur);
    } else {
        assert(s[0] == w[0]);
        assert(s.skip(1) =~= w.skip(1) + seq!['\'']);
        assert(tok_from(s, TokState::SingleQuoted, cur, acc) == tok_from(
            s.skip(1),
            TokState::SingleQuoted,
            cur.push(w[0]),
            acc,
        ));
        lemma_tok_sq_runs_to_close(w.skip(1), cur.push(w[0]), acc);
        assert(cur.push(w[0]) + w.skip(1) =~= cur + w);
    }
}

/// Law: a single-quoted word with no quote of its own inside is one token,
/// its content copied verbatim, the quotes never copied.
pub proof fn lemma_single_quoted_word(w: Seq<char>)
    requires
        w.len() > 0,
        forall|i: int| 0 <= i < w.len() ==> w[i] != '\'',
    ensures
        spec_tokenize(seq!['\''] + w + seq!['\'']) == seq![w],
{
    let s = seq!['\''] + w + seq!['\''];
    assert(s[0] == '\'');
    assert(s.skip(1) =~= w + seq!['\'']);
    lemma_tok_sq_runs_to_close(w, Seq::empty(), Seq::empty());
    assert(Seq::<char>::empty() + w =~= w);
    assert(Seq::<Seq<char>>::empty().push(w) =~= seq![w]);
}

proof fn lemma_tok_dq_runs_to_close(w: Seq<char>, cur: Seq<char>, acc: Seq<Seq<char>>)
    requires
        forall|i: int| 0 <= i < w.len() ==> w[i] != '"' && w[i] != '\\',
    ensures
        tok_from(w + seq!['"'], TokState::DoubleQuoted, cur, acc) == if (cur + w).len() > 0 {
            acc.push(cur + w)
        } else {
            acc
        },
    decreases w.len(),
{
    let s = w + seq!['"'];
    if w.len() == 0 {
        assert(s[0] == '"');
        assert(s.skip(1) =~= Seq::<char>::empty());
        assert(tok_from(s, TokState::DoubleQuoted, cur, acc) == tok_from(
            s.skip(1),
            TokState::Normal,
            cur,
            acc,
        ));
        assert(tok_from(s.skip(1), TokState::Normal, cur, acc) == if cur.len() > 0 {
            acc.push(cur)
        } else {
            acc
        });
        assert(cur + w =~= cur);
    } else {
        assert(s[0] == w[0]);
        assert(s.skip(1) =~= w.skip(1) + seq!['"']);
        assert(tok_from(s, TokState::DoubleQuoted, cur, acc) == tok_from(
            s.skip(1),
            TokState::DoubleQuoted,
            cur.push(w[0]),
            acc,
        ));
        lemma_tok_dq_runs_to_close(w.skip(1), cur.push(w[0]), acc);
        assert(cur.push(w[0]) + w.skip(1) =~= cur + w);
    }
}

/// Law: a double-quoted word with no quote or backslash inside is one token,
/// its content copied verbatim, the quotes never copied.
pub proof fn lemma_double_quoted_word(w: Seq<char>)
    requires
        w.len() > 0,
        forall|i: int| 0 <= i < w.len() ==> w[i] != '"' && w[i] != '\\',
    ensures
        spec_tokenize(seq!['"'] + w + seq!['"']) == seq![w],
{
    let s = seq!['"'] + w + seq!['"'];
    assert(s[0] == '"');
    assert(s.skip(1) =~= w + seq!['"']);
    lemma_tok_dq_runs_to_close(w, Seq::empty(), Seq::empty());
    assert(Seq::<char>::empty() + w =~= w);
    assert(Seq::<Seq<char>>::empty().push(w) =~= seq![w]);
}

/// Law: tokenizing never emits an empty token.
pub proof fn lemma_tokens_nonempty(s: Seq<char>)
    ensures
        forall|k: int|
            0 <= k < spec_tokenize(s).len() ==> #[trigger] spec_tokenize(s)[k].len() > 0,
{
    lemma_tok_from_nonempty(s, TokState::Normal, Seq::empty(), Seq::empty());
}

/// Split a raw input line into argument tokens, resolving quotes and
/// escapes as a POSIX-like shell does. Quote characters are never copied
/// to the output; empty tokens are never emitted.
pub fn tokenize(input: &str) -> (r: Vec<String>)
    ensures
        r.deep_view() == spec_tokenize(input@),
{
    let cs = str_to_chars(input);
    let toks = tokenize_chars(&cs);
    let mut r: Vec<String> = Vec::new();
    let mut i: usize = 0;
    while i < toks.len()
        invariant
            i <= toks.len(),
            toks.deep_view() == spec_tokenize(cs@),
            r@.len() == i,
            forall|k: int| 0 <= k < i ==> r@[k]@ == #[trigger] toks.deep_view()[k],
        decreases toks.len() - i,
    {
        proof {
            assert(toks@[i as int].deep_view() =~= toks@[i as int]@);
        }
        let s = chars_to_string(&toks[i]);
        r.push(s);
        i = i + 1;
    }
    proof {
        assert(r.deep_view() =~~= toks.deep_view());
    }
    r
}

} // verus!
