//! POSIX-shell escaping of command-line tokens: its specification, the
//! trusted call into the escaping routine, a model of how a shell reads a
//! command line back, and the proof that rendering and reading back
//! round-trip for arbitrary tokens.

use vstd::prelude::*;

verus! {

/// Characters a POSIX shell gives no special meaning, so a token made only
/// of them may stand unquoted.
pub open spec fn is_allowed_char(c: char) -> bool {
    ('a' <= c && c <= 'z') || ('A' <= c && c <= 'Z') || ('0' <= c && c <= '9') || c == '-' || c
        == '_' || c == '=' || c == '/' || c == ',' || c == '.' || c == '+'
}

/// A token that needs no quoting: nonempty and made only of allowed
/// characters.
pub open spec fn is_plain(t: Seq<char>) -> bool {
    t.len() > 0 && (forall|i: int| 0 <= i < t.len() ==> is_allowed_char(#[trigger] t[i]))
}

/// The quoted form of one character inside a single-quoted token. For `'`
/// and `!` the quote is closed, the character stands backslash-escaped, and
/// the quote reopens; every other character stands as it is.
pub open spec fn quoted_char(c: char) -> Seq<char> {
    if c == '\'' || c == '!' {
        seq!['\'', '\\', c, '\'']
    } else {
        seq![c]
    }
}

/// The body of the quoted form of a token: each character in its quoted
/// form, in order.
pub open spec fn quoted_body(t: Seq<char>) -> Seq<char>
    decreases t.len(),
{
    if t.len() == 0 {
        Seq::empty()
    } else {
        quoted_char(t[0]) + quoted_body(t.drop_first())
    }
}

/// Shell escaping of one token: a plain token stands as it is, anything
/// else is wrapped in single quotes.
pub open spec fn escape_spec(t: Seq<char>) -> Seq<char> {
    if is_plain(t) {
        t
    } else {
        seq!['\''] + quoted_body(t) + seq!['\'']
    }
}

/// A whole command line: each token escaped, single spaces between.
pub open spec fn words_spec(tokens: Seq<Seq<char>>) -> Seq<char>
    decreases tokens.len(),
{
    if tokens.len() == 0 {
        Seq::empty()
    } else if tokens.len() == 1 {
        escape_spec(tokens[0])
    } else {
        escape_spec(tokens[0]) + seq![' '] + words_spec(tokens.drop_first())
    }
}

/// The word being accumulated, or the empty word when none has started.
pub open spec fn word_of(cur: Option<Seq<char>>) -> Seq<char> {
    match cur {
        Some(w) => w,
        None => Seq::empty(),
    }
}

/// Closes the word being accumulated, if one has started.
pub open spec fn close_word(cur: Option<Seq<char>>, acc: Seq<Seq<char>>) -> Seq<Seq<char>> {
    match cur {
        Some(w) => acc.push(w),
        None => acc,
    }
}

/// How a POSIX shell reads a command line back into words: blanks separate
/// words; between single quotes every character is literal; a backslash
/// outside quotes makes the next character literal; an unquoted ordinary
/// character is taken as it is when it is an allowed one. On anything this
/// fragment does not cover (an unquoted metacharacter, an unterminated
/// quote) the model answers `None` rather than guess what a shell would do.
pub open spec fn lex(
    s: Seq<char>,
    cur: Option<Seq<char>>,
    in_quote: bool,
    acc: Seq<Seq<char>>,
) -> Option<Seq<Seq<char>>>
    decreases s.len(),
{
    if s.len() == 0 {
        if in_quote {
            None
        } else {
            Some(close_word(cur, acc))
        }
    } else {
        let c = s[0];
        let rest = s.drop_first();
        if in_quote {
            if c == '\'' {
                lex(rest, cur, false, acc)
            } else {
                lex(rest, Some(word_of(cur).push(c)), true, acc)
            }
        } else if c == ' ' {
            lex(rest, None, false, close_word(cur, acc))
        } else if c == '\'' {
            lex(rest, Some(word_of(cur)), true, acc)
        } else if c == '\\' {
            if rest.len() == 0 {
                None
            } else {
                lex(rest.drop_first(), Some(word_of(cur).push(rest[0])), false, acc)
            }
        } else if is_allowed_char(c) {
            lex(rest, Some(word_of(cur).push(c)), false, acc)
        } else {
            None
        }
    }
}

/// The words a POSIX shell reads from `s`.
pub open spec fn shell_words(s: Seq<char>) -> Option<Seq<Seq<char>>> {
    lex(s, None, false, Seq::empty())
}

/// Relies on `shell_escape::escape`: on POSIX platforms a nonempty token of
/// allowed characters is returned unchanged, and anything else is wrapped in
/// single quotes with each embedded `'` or `!` rendered as `'\''` or `'\!'`.
#[verifier::external_body]
pub(crate) fn escape_token(s: &str) -> (r: String)
    ensures
        r@ == escape_spec(s@),
{
    shell_escape::escape(std::borrow::Cow::Borrowed(s)).into_owned()
}

/// Reading the quoted body of `t` inside quotes appends exactly `t` to the
/// word being accumulated.
proof fn lemma_lex_quoted_body(t: Seq<char>, rest: Seq<char>, w: Seq<char>, acc: Seq<Seq<char>>)
    ensures
        lex(quoted_body(t) + rest, Some(w), true, acc) == lex(rest, Some(w + t), true, acc),
    decreases t.len(),
{
    if t.len() == 0 {
        assert(quoted_body(t) + rest =~= rest);
        assert(w + t =~= w);
    } else {
        let c = t[0];
        let t1 = t.drop_first();
        if c == '\'' || c == '!' {
            let s = quoted_body(t) + rest;
            let x = quoted_body(t1) + rest;
            assert(s =~= seq!['\'', '\\', c, '\''] + x);
            assert(s[0] == '\'');
            let s1 = s.drop_first();
            assert(s1 =~= seq!['\\', c, '\''] + x);
            assert(lex(s, Some(w), true, acc) == lex(s1, Some(w), false, acc));
            let s2 = s1.drop_first();
            assert(s2 =~= seq![c, '\''] + x);
            assert(s2[0] == c);
            let s3 = s2.drop_first();
            assert(s3 =~= seq!['\''] + x);
            assert(lex(s1, Some(w), false, acc) == lex(s3, Some(w.push(c)), false, acc));
            assert(s3.drop_first() =~= x);
            assert(lex(s3, Some(w.push(c)), false, acc) == lex(x, Some(w.push(c)), true, acc));
            lemma_lex_quoted_body(t1, rest, w.push(c), acc);
            assert(w.push(c) + t1 =~= w + t);
        } else {
            let s = quoted_body(t) + rest;
            let x = quoted_body(t1) + rest;
            assert(s =~= seq![c] + x);
            assert(s[0] == c);
            assert(s.drop_first() =~= x);
            assert(lex(s, Some(w), true, acc) == lex(x, Some(w.push(c)), true, acc));
            lemma_lex_quoted_body(t1, rest, w.push(c), acc);
            assert(w.push(c) + t1 =~= w + t);
        }
    }
}

/// Reading a plain token outside quotes appends exactly that token to the
/// word being accumulated.
proof fn lemma_lex_plain(
    t: Seq<char>,
    rest: Seq<char>,
    cur: Option<Seq<char>>,
    acc: Seq<Seq<char>>,
)
    requires
        is_plain(t),
    ensures
        lex(t + rest, cur, false, acc) == lex(rest, Some(word_of(cur) + t), false, acc),
    decreases t.len(),
{
    let c = t[0];
    let t1 = t.drop_first();
    let s = t + rest;
    assert(s[0] == c);
    assert(is_allowed_char(c));
    assert(c != ' ' && c != '\'' && c != '\\');
    assert(s.drop_first() =~= t1 + rest);
    assert(lex(s, cur, false, acc) == lex(t1 + rest, Some(word_of(cur).push(c)), false, acc));
    if t1.len() == 0 {
        assert(t1 + rest =~= rest);
        assert(word_of(cur).push(c) =~= word_of(cur) + t);
    } else {
        assert(is_plain(t1)) by {
            assert(forall|i: int|
                0 <= i < t1.len() ==> t1[i] == t[i + 1] && is_allowed_char(#[trigger] t1[i]));
        }
        lemma_lex_plain(t1, rest, Some(word_of(cur).push(c)), acc);
        assert(word_of(cur).push(c) + t1 =~= word_of(cur) + t);
    }
}

/// Reading the escaped form of a token outside quotes appends exactly that
/// token to the word being accumulated, whatever the token holds.
proof fn lemma_lex_escaped(
    t: Seq<char>,
    rest: Seq<char>,
    cur: Option<Seq<char>>,
    acc: Seq<Seq<char>>,
)
    ensures
        lex(escape_spec(t) + rest, cur, false, acc) == lex(
            rest,
            Some(word_of(cur) + t),
            false,
            acc,
        ),
{
    if is_plain(t) {
        lemma_lex_plain(t, rest, cur, acc);
    } else {
        let s = escape_spec(t) + rest;
        let x = quoted_body(t) + (seq!['\''] + rest);
        assert(s =~= seq!['\''] + x);
        assert(s[0] == '\'');
        assert(s.drop_first() =~= x);
        assert(lex(s, cur, false, acc) == lex(x, Some(word_of(cur)), true, acc));
        lemma_lex_quoted_body(t, seq!['\''] + rest, word_of(cur), acc);
        let s1 = seq!['\''] + rest;
        assert(s1[0] == '\'');
        assert(s1.drop_first() =~= rest);
        assert(lex(s1, Some(word_of(cur) + t), true, acc) == lex(
            rest,
            Some(word_of(cur) + t),
            false,
            acc,
        ));
    }
}

/// Reading a whole rendered command line yields exactly its tokens, appended
/// to the words already read.
proof fn lemma_lex_words(tokens: Seq<Seq<char>>, acc: Seq<Seq<char>>)
    requires
        tokens.len() > 0,
    ensures
        lex(words_spec(tokens), None, false, acc) == Some(acc + tokens),
    decreases tokens.len(),
{
    let t0 = tokens[0];
    if tokens.len() == 1 {
        assert(words_spec(tokens) =~= escape_spec(t0) + Seq::<char>::empty());
        lemma_lex_escaped(t0, Seq::empty(), None, acc);
        assert(word_of(None) + t0 =~= t0);
        assert(lex(Seq::empty(), Some(t0), false, acc) == Some(acc.push(t0)));
        assert(acc.push(t0) =~= acc + tokens);
    } else {
        let tokens1 = tokens.drop_first();
        let tail = seq![' '] + words_spec(tokens1);
        assert(words_spec(tokens) =~= escape_spec(t0) + tail);
        lemma_lex_escaped(t0, tail, None, acc);
        assert(word_of(None) + t0 =~= t0);
        assert(tail[0] == ' ');
        assert(tail.drop_first() =~= words_spec(tokens1));
        assert(lex(tail, Some(t0), false, acc) == lex(
            words_spec(tokens1),
            None,
            false,
            acc.push(t0),
        ));
        lemma_lex_words(tokens1, acc.push(t0));
        assert(acc.push(t0) + tokens1 =~= acc + tokens);
    }
}

/// Law: a POSIX shell reading the rendered command line recovers exactly the
/// original tokens — escaping round-trips, whatever characters the tokens
/// hold.
pub proof fn lemma_round_trip(tokens: Seq<Seq<char>>)
    requires
        tokens.len() > 0,
    ensures
        shell_words(words_spec(tokens)) == Some(tokens),
{
    lemma_lex_words(tokens, Seq::empty());
    assert(Seq::<Seq<char>>::empty() + tokens =~= tokens);
}

/// Appending one more token to a nonempty command line appends one space and
/// the token's escaped form.
pub proof fn lemma_words_snoc(tokens: Seq<Seq<char>>, t: Seq<char>)
    requires
        tokens.len() > 0,
    ensures
        words_spec(tokens.push(t)) == words_spec(tokens) + seq![' '] + escape_spec(t),
    decreases tokens.len(),
{
    if tokens.len() == 1 {
        assert(tokens.push(t).drop_first() =~~= seq![t]);
        assert(tokens.push(t)[0] == tokens[0]);
        assert(seq![t].len() == 1 && seq![t][0] == t);
        assert(words_spec(seq![t]) == escape_spec(t));
        assert(words_spec(tokens.push(t)) == escape_spec(tokens[0]) + seq![' '] + words_spec(
            seq![t],
        ));
        assert(words_spec(tokens) == escape_spec(tokens[0]));
        assert(words_spec(tokens.push(t)) =~= words_spec(tokens) + seq![' '] + escape_spec(t));
    } else {
        let tokens1 = tokens.drop_first();
        assert(tokens.push(t).drop_first() =~~= tokens1.push(t));
        assert(tokens.push(t)[0] == tokens[0]);
        lemma_words_snoc(tokens1, t);
        assert(words_spec(tokens.push(t)) == escape_spec(tokens[0]) + seq![' '] + words_spec(
            tokens1.push(t),
        ));
        assert(words_spec(tokens) == escape_spec(tokens[0]) + seq![' '] + words_spec(tokens1));
        assert(words_spec(tokens.push(t)) =~= words_spec(tokens) + seq![' '] + escape_spec(t));
    }
}

} // verus!
