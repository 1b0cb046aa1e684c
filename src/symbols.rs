//! Post-processing of highlighted code: symbols are wrapped for styling.

use vstd::prelude::*;

use crate::outside::{push_char, to_chars};
use crate::text::{push_range, rest, starts_at, starts_with};

verus! {

/// The entity that stands for `=` in program text.
pub open spec fn equals_entity() -> Seq<char> {
    seq!['&', 'e', 'q', 'u', 'a', 'l', 's', ';']
}

/// The escaped `>` that the highlighter writes.
pub open spec fn gt_entity() -> Seq<char> {
    seq!['&', 'g', 't', ';']
}

/// The escaped `/` that the highlighter writes.
pub open spec fn slash_entity() -> Seq<char> {
    seq!['&', '#', 'x', '2', 'f', ';']
}

/// The markup put before a wrapped symbol.
pub open spec fn span_open() -> Seq<char> {
    "<span class='symbol'>"@
}

/// The markup put after a wrapped symbol.
pub open spec fn span_close() -> Seq<char> {
    "</span>"@
}

/// A symbol wrapped for styling.
pub open spec fn span_of(t: Seq<char>) -> Seq<char> {
    span_open() + t + span_close()
}

/// The single characters that are wrapped.
pub open spec fn is_symbol_char(c: char) -> bool {
    c == '(' || c == ')' || c == '[' || c == ']' || c == ':' || c == '+' || c == '-' || c == '*'
        || c == '{' || c == '}'
}

/// First pass: every `=` outside a tag becomes `&equals;`; `inside` says
/// whether the scan stands inside a tag.
pub open spec fn escape_equals_from(s: Seq<char>, inside: bool) -> Seq<char>
    decreases s.len(),
{
    if s.len() == 0 {
        Seq::empty()
    } else {
        let c = s[0];
        let next_inside = if c == '<' {
            true
        } else if c == '>' {
            false
        } else {
            inside
        };
        let head = if c == '=' && !inside {
            equals_entity()
        } else {
            seq![c]
        };
        head + escape_equals_from(s.drop_first(), next_inside)
    }
}

/// First pass over a whole text, which starts outside any tag.
pub open spec fn escape_equals_spec(s: Seq<char>) -> Seq<char> {
    escape_equals_from(s, false)
}

/// The length of the symbol token at the start of `s`: one for a symbol
/// character, the entity's length for one of the three entities, zero
/// where none starts there.
pub open spec fn token_len(s: Seq<char>) -> nat {
    if s.len() > 0 && is_symbol_char(s[0]) {
        1
    } else if starts_with(s, gt_entity()) {
        4
    } else if starts_with(s, slash_entity()) {
        6
    } else if starts_with(s, equals_entity()) {
        8
    } else {
        0
    }
}

/// The length of the symbol span that `s` starts with: a token already
/// wrapped, as the second pass writes it. Zero where none starts there.
pub open spec fn existing_span_len(s: Seq<char>) -> nat {
    if starts_with(s, span_open()) {
        let t = rest(s, span_open().len());
        let k = token_len(t);
        if k > 0 && starts_with(rest(t, k), span_close()) {
            span_open().len() + k + span_close().len()
        } else {
            0
        }
    } else {
        0
    }
}

/// Second pass: a symbol span already present is kept as it is; otherwise
/// each symbol character, and each of the three entities, is wrapped in a
/// span.
pub open spec fn wrap_symbols_spec(s: Seq<char>) -> Seq<char>
    decreases s.len(),
{
    if s.len() == 0 {
        Seq::empty()
    } else if existing_span_len(s) > 0 {
        let k = existing_span_len(s);
        s.subrange(0, k as int) + wrap_symbols_spec(rest(s, k))
    } else if token_len(s) > 0 {
        let k = token_len(s);
        span_of(s.subrange(0, k as int)) + wrap_symbols_spec(rest(s, k))
    } else {
        seq![s[0]] + wrap_symbols_spec(s.drop_first())
    }
}

/// Text that the second pass leaves as it is: existing symbol spans, and
/// characters that start neither a token nor a span.
pub open spec fn is_settled(s: Seq<char>) -> bool
    decreases s.len(),
{
    if s.len() == 0 {
        true
    } else if existing_span_len(s) > 0 {
        is_settled(rest(s, existing_span_len(s)))
    } else {
        token_len(s) == 0 && is_settled(s.drop_first())
    }
}

/// Both passes, as applied to the highlighter's output.
pub open spec fn post_process_spec(s: Seq<char>) -> Seq<char> {
    wrap_symbols_spec(escape_equals_spec(s))
}

/// Replaces each `=` outside a tag by `&equals;`.
pub fn escape_equals(s: &Vec<char>) -> (r: String)
    ensures
        r@ == escape_equals_spec(s@),
{
    let n = s.len();
    let mut out = String::new();
    let mut inside = false;
    let mut i: usize = 0;
    assert(rest(s@, 0) =~= s@);
    while i < n
        invariant
            n == s.len(),
            i <= n,
            escape_equals_spec(s@) == out@ + escape_equals_from(rest(s@, i as nat), inside),
        decreases n - i,
    {
        let c = s[i];
        let ghost tail = rest(s@, i as nat);
        let ghost was_inside = inside;
        let ghost before = out@;
        let ghost head = if c == '=' && !inside {
            equals_entity()
        } else {
            seq![c]
        };
        if c == '=' && !inside {
            out.append("&equals;");
            proof {
                reveal_strlit("&equals;");
                assert("&equals;"@ =~= equals_entity());
            }
        } else {
            push_char(&mut out, c);
            assert(out@ =~= before + seq![c]);
        }
        if c == '<' {
            inside = true;
        } else if c == '>' {
            inside = false;
        }
        i += 1;
        proof {
            assert(tail[0] == c);
            assert(tail.drop_first() =~= rest(s@, i as nat));
            let x = escape_equals_from(rest(s@, i as nat), inside);
            assert(escape_equals_from(tail, was_inside) == head + x);
            assert(before + (head + x) =~= out@ + x);
        }
    }
    assert(rest(s@, n as nat) =~= Seq::<char>::empty());
    out
}


/// The length of the token at position `i`.
fn token_len_at(s: &Vec<char>, i: usize, gt: &Vec<char>, slash: &Vec<char>, eq: &Vec<char>) -> (r: usize)
    requires
        i <= s.len(),
        gt@ == gt_entity(),
        slash@ == slash_entity(),
        eq@ == equals_entity(),
    ensures
        r == token_len(rest(s@, i as nat)),
        i + r <= s.len(),
{
    if i < s.len() {
        assert(rest(s@, i as nat)[0] == s@[i as int]);
        let c = s[i];
        if c == '(' || c == ')' || c == '[' || c == ']' || c == ':' || c == '+' || c == '-' || c
            == '*' || c == '{' || c == '}' {
            return 1;
        }
    }
    if starts_at(s, i, gt) {
        4
    } else if starts_at(s, i, slash) {
        6
    } else if starts_at(s, i, eq) {
        8
    } else {
        0
    }
}

/// The length of the symbol span at position `i`.
fn span_len_at(
    s: &Vec<char>,
    i: usize,
    open: &Vec<char>,
    close: &Vec<char>,
    gt: &Vec<char>,
    slash: &Vec<char>,
    eq: &Vec<char>,
) -> (r: usize)
    requires
        i <= s.len(),
        open@ == span_open(),
        close@ == span_close(),
        gt@ == gt_entity(),
        slash@ == slash_entity(),
        eq@ == equals_entity(),
    ensures
        r == existing_span_len(rest(s@, i as nat)),
        i + r <= s.len(),
{
    if !starts_at(s, i, open) {
        return 0;
    }
    let j = i + open.len();
    assert(rest(rest(s@, i as nat), span_open().len()) =~= rest(s@, j as nat));
    let t = token_len_at(s, j, gt, slash, eq);
    if t == 0 {
        return 0;
    }
    assert(rest(rest(s@, j as nat), t as nat) =~= rest(s@, (j + t) as nat));
    if starts_at(s, j + t, close) {
        open.len() + t + close.len()
    } else {
        0
    }
}

/// Wraps each symbol character, and each of the entities for `>`, `/` and
/// `=`, in a symbol span; a symbol span already present is kept as it is.
pub fn wrap_symbols(s: &Vec<char>) -> (r: String)
    ensures
        r@ == wrap_symbols_spec(s@),
{
    let n = s.len();
    let gt = to_chars("&gt;");
    let slash = to_chars("&#x2f;");
    let eq = to_chars("&equals;");
    let open = to_chars("<span class='symbol'>");
    let close = to_chars("</span>");
    proof {
        reveal_strlit("&gt;");
        reveal_strlit("&#x2f;");
        reveal_strlit("&equals;");
        assert(gt@ =~= gt_entity());
        assert(slash@ =~= slash_entity());
        assert(eq@ =~= equals_entity());
    }
    let mut out = String::new();
    let mut i: usize = 0;
    assert(rest(s@, 0) =~= s@);
    while i < n
        invariant
            n == s.len(),
            i <= n,
            gt@ == gt_entity(),
            slash@ == slash_entity(),
            eq@ == equals_entity(),
            open@ == span_open(),
            close@ == span_close(),
            wrap_symbols_spec(s@) == out@ + wrap_symbols_spec(rest(s@, i as nat)),
        decreases n - i,
    {
        let ghost tail = rest(s@, i as nat);
        let ghost before = out@;
        let k = span_len_at(s, i, &open, &close, &gt, &slash, &eq);
        let step: usize;
        if k > 0 {
            push_range(&mut out, s, i, i + k);
            step = k;
        } else {
            let t = token_len_at(s, i, &gt, &slash, &eq);
            if t > 0 {
                out.append("<span class='symbol'>");
                push_range(&mut out, s, i, i + t);
                out.append("</span>");
                step = t;
            } else {
                push_char(&mut out, s[i]);
                step = 1;
            }
        }
        proof {
            assert(tail[0] == s@[i as int]);
            let next = rest(s@, (i + step) as nat);
            assert(rest(tail, step as nat) =~= next);
            assert(tail.drop_first() =~= rest(tail, 1));
            assert(s@.subrange(i as int, (i + step) as int) =~= tail.subrange(0, step as int));
            let added = out@.subrange(before.len() as int, out@.len() as int);
            assert(out@ =~= before + added);
            if k == 0 && token_len(tail) == 0 {
                assert(added =~= seq![tail[0]]);
            } else if k == 0 {
                assert(added =~= span_of(tail.subrange(0, step as int)));
            } else {
                assert(added =~= tail.subrange(0, step as int));
            }
            assert(wrap_symbols_spec(tail) == added + wrap_symbols_spec(next));
            assert(before + (added + wrap_symbols_spec(next)) =~= out@ + wrap_symbols_spec(next));
        }
        i += step;
    }
    assert(rest(s@, n as nat) =~= Seq::<char>::empty());
    out
}

/// Both passes over highlighted markup: `=` outside tags escaped, then the
/// symbols wrapped.
pub fn post_process(s: &str) -> (r: String)
    ensures
        r@ == post_process_spec(s@),
{
    let chars = to_chars(s);
    let escaped = escape_equals(&chars);
    let escaped_chars = to_chars(escaped.as_str());
    wrap_symbols(&escaped_chars)
}

/// The second pass does not wrap a symbol that is already wrapped: text
/// made of existing symbol spans and of characters that start neither a
/// token nor a span comes out unchanged, and so does running the pass on
/// it again.
pub proof fn lemma_wrap_symbols_keeps_settled(s: Seq<char>)
    requires
        is_settled(s),
    ensures
        wrap_symbols_spec(s) == s,
        wrap_symbols_spec(wrap_symbols_spec(s)) == wrap_symbols_spec(s),
    decreases s.len(),
{
    if s.len() > 0 {
        let k = existing_span_len(s);
        if k > 0 {
            lemma_wrap_symbols_keeps_settled(rest(s, k));
            assert(s.subrange(0, k as int) + rest(s, k) =~= s);
        } else {
            lemma_wrap_symbols_keeps_settled(s.drop_first());
            assert(seq![s[0]] + s.drop_first() =~= s);
        }
    }
}


/// Facts about the literal markup: `<` opens the span and occurs nowhere
/// else in it or in the entities.
proof fn lemma_markup_chars()
    ensures
        span_open().len() == 21,
        span_close().len() == 7,
        span_open()[0] == '<',
        forall|j: int| 1 <= j < 21 ==> span_open()[j] != '<',
        forall|j: int| 0 <= j < 4 ==> gt_entity()[j] != '<',
        forall|j: int| 0 <= j < 6 ==> slash_entity()[j] != '<',
        forall|j: int| 0 <= j < 8 ==> equals_entity()[j] != '<',
{
    reveal_strlit("<span class='symbol'>");
    reveal_strlit("</span>");
}

/// Where the output of the second pass holds no `<` in its first `m`
/// characters, those characters are copied from the input, and the rest of
/// the output is the pass run on the rest of the input.
proof fn lemma_plain_prefix(r: Seq<char>, m: nat)
    requires
        m <= wrap_symbols_spec(r).len(),
        forall|j: int| 0 <= j < m ==> wrap_symbols_spec(r)[j] != '<',
    ensures
        m <= r.len(),
        wrap_symbols_spec(r) == r.subrange(0, m as int) + wrap_symbols_spec(rest(r, m)),
    decreases m,
{
    lemma_markup_chars();
    if m == 0 {
        assert(rest(r, 0) =~= r);
        assert(r.subrange(0, 0) + wrap_symbols_spec(r) =~= wrap_symbols_spec(r));
    } else {
        let w = wrap_symbols_spec(r);
        assert(w[0] != '<');
        if existing_span_len(r) > 0 {
            assert(r.subrange(0, 21) == span_open());
            assert(w[0] == r[0]);
            assert(r[0] == span_open()[0]);
        } else if token_len(r) > 0 {
            assert(w[0] == span_open()[0]);
        } else {
            let r1 = r.drop_first();
            let w1 = wrap_symbols_spec(r1);
            assert(w =~= seq![r[0]] + w1);
            assert forall|j: int| 0 <= j < (m - 1) as nat implies w1[j] != '<' by {
                assert(w1[j] == w[j + 1]);
            }
            lemma_plain_prefix(r1, (m - 1) as nat);
            assert(rest(r1, (m - 1) as nat) =~= rest(r, m));
            assert(seq![r[0]] + (r1.subrange(0, m - 1) + wrap_symbols_spec(rest(r, m))) =~= r.subrange(
                0,
                m as int,
            ) + wrap_symbols_spec(rest(r, m)));
        }
    }
}

/// The output of the second pass never starts with a token.
proof fn lemma_no_token_at_start(x: Seq<char>)
    ensures
        token_len(wrap_symbols_spec(x)) == 0,
    decreases x.len(),
{
    lemma_markup_chars();
    let w = wrap_symbols_spec(x);
    if x.len() > 0 {
        if existing_span_len(x) > 0 {
            assert(x.subrange(0, 21) == span_open());
            assert(w[0] == x[0]);
            assert(x[0] == span_open()[0]);
            assert(w.subrange(0, 4)[0] == '<');
            assert(w.subrange(0, 6)[0] == '<');
            assert(w.subrange(0, 8)[0] == '<');
        } else if token_len(x) > 0 {
            assert(w[0] == span_open()[0]);
            assert(w.subrange(0, 4)[0] == '<');
            assert(w.subrange(0, 6)[0] == '<');
            assert(w.subrange(0, 8)[0] == '<');
        } else {
            assert(w[0] == x[0]);
            assert(!is_symbol_char(x[0]));
            if starts_with(w, gt_entity()) {
                lemma_plain_prefix(x, 4);
                assert(w.subrange(0, 4) == x.subrange(0, 4));
            }
            if starts_with(w, slash_entity()) {
                lemma_plain_prefix(x, 6);
                assert(w.subrange(0, 6) == x.subrange(0, 6));
            }
            if starts_with(w, equals_entity()) {
                lemma_plain_prefix(x, 8);
                assert(w.subrange(0, 8) == x.subrange(0, 8));
            }
        }
    }
}


/// A token keeps its length whatever follows it.
proof fn lemma_token_prefix(s: Seq<char>, y: Seq<char>)
    requires
        token_len(s) > 0,
    ensures
        token_len(s.subrange(0, token_len(s) as int) + y) == token_len(s),
{
    let k = token_len(s);
    let t = s.subrange(0, k as int) + y;
    assert(t[0] == s[0]);
    if k == 4 {
        assert(t.subrange(0, 4) =~= s.subrange(0, 4));
    } else if k == 6 {
        assert(t.subrange(0, 6) =~= s.subrange(0, 6));
        assert(t.subrange(0, 4) =~= s.subrange(0, 4));
    } else if k == 8 {
        assert(t.subrange(0, 8) =~= s.subrange(0, 8));
        assert(t.subrange(0, 6) =~= s.subrange(0, 6));
        assert(t.subrange(0, 4) =~= s.subrange(0, 4));
    }
}

/// An existing span keeps its length whatever follows it.
proof fn lemma_span_prefix(s: Seq<char>, y: Seq<char>)
    requires
        existing_span_len(s) > 0,
    ensures
        existing_span_len(s.subrange(0, existing_span_len(s) as int) + y) == existing_span_len(s),
{
    lemma_markup_chars();
    let k = existing_span_len(s);
    let a = s.subrange(0, k as int) + y;
    assert(a.subrange(0, 21) =~= s.subrange(0, 21));
    let ts = rest(s, 21);
    let ta = rest(a, 21);
    let tk = token_len(ts);
    assert(ta =~= ts.subrange(0, tk as int + 7) + y);
    lemma_token_prefix(ts, ts.subrange(tk as int, tk as int + 7) + y);
    assert(ts.subrange(0, tk as int) + (ts.subrange(tk as int, tk as int + 7) + y) =~= ta);
    assert(rest(ta, tk) =~= ts.subrange(tk as int, tk as int + 7) + y);
    assert(rest(ta, tk).subrange(0, 7) =~= rest(ts, tk).subrange(0, 7));
    assert(rest(a, k) =~= y);
}

/// A token just wrapped is an existing span, whatever follows it.
proof fn lemma_wrapped_token(s: Seq<char>, y: Seq<char>)
    requires
        token_len(s) > 0,
    ensures
        existing_span_len(span_of(s.subrange(0, token_len(s) as int)) + y) == span_open().len()
            + token_len(s) + span_close().len(),
        rest(span_of(s.subrange(0, token_len(s) as int)) + y, span_open().len() + token_len(s)
            + span_close().len()) == y,
{
    lemma_markup_chars();
    let k = token_len(s);
    let tok = s.subrange(0, k as int);
    let a = span_of(tok) + y;
    assert(a.subrange(0, 21) =~= span_open());
    let ta = rest(a, 21);
    assert(ta =~= tok + (span_close() + y));
    lemma_token_prefix(s, span_close() + y);
    assert(rest(ta, k).subrange(0, 7) =~= span_close());
    assert(rest(a, 21 + k + 7) =~= y);
}

/// The output of the second pass is settled.
proof fn lemma_output_settled(s: Seq<char>)
    ensures
        is_settled(wrap_symbols_spec(s)),
    decreases s.len(),
{
    lemma_markup_chars();
    let w = wrap_symbols_spec(s);
    if s.len() > 0 {
        let k = existing_span_len(s);
        if k > 0 {
            lemma_output_settled(rest(s, k));
            lemma_span_prefix(s, wrap_symbols_spec(rest(s, k)));
            assert(w.subrange(0, k as int) =~= s.subrange(0, k as int));
            assert(rest(w, k) =~= wrap_symbols_spec(rest(s, k)));
        } else if token_len(s) > 0 {
            let t = token_len(s);
            lemma_output_settled(rest(s, t));
            lemma_wrapped_token(s, wrap_symbols_spec(rest(s, t)));
        } else {
            let r = s.drop_first();
            let x = wrap_symbols_spec(r);
            lemma_output_settled(r);
            lemma_no_token_at_start(s);
            assert(w =~= seq![s[0]] + x);
            assert(w.drop_first() =~= x);
            if starts_with(w, span_open()) {
                assert forall|j: int| 0 <= j < 20 implies x[j] != '<' by {
                    assert(x[j] == w[j + 1]);
                    assert(w.subrange(0, 21)[j + 1] == w[j + 1]);
                }
                lemma_plain_prefix(r, 20);
                assert(s.subrange(0, 21) =~= w.subrange(0, 21));
                assert(rest(w, 21) =~= wrap_symbols_spec(rest(r, 20)));
                lemma_no_token_at_start(rest(r, 20));
            }
        }
    }
}

/// Running the second pass on its own output changes nothing: a symbol
/// already wrapped is never wrapped again.
pub proof fn lemma_wrap_symbols_idempotent(s: Seq<char>)
    ensures
        wrap_symbols_spec(wrap_symbols_spec(s)) == wrap_symbols_spec(s),
{
    lemma_output_settled(s);
    lemma_wrap_symbols_keeps_settled(wrap_symbols_spec(s));
}

} // verus!
