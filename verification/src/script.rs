//! Shell scripts as sequences of tokens: quoting of untrusted tokens, a model
//! of how a shell reads a quoted word, and rendering to one line.

use vstd::prelude::*;
use vstd::string::StrSliceExecFns;
use vstd::string::StringExecFns;
use welder::Welder;

verus! {

/// The characters that have a meaning to the shell where they stand bare in
/// an argument: the blanks, the quotes and the backslash, the characters
/// that start an expansion, those that end or join commands or redirect
/// them, and those of patterns, comments and braces.
pub open spec fn is_special_char(c: char) -> bool {
    c == ' ' || c == '\t' || c == '\n' || c == '\'' || c == '"' || c == '\\' || c == '$'
        || c == '`' || c == ';' || c == '&' || c == '|' || c == '<' || c == '>' || c == '('
        || c == ')' || c == '*' || c == '?' || c == '[' || c == ']' || c == '#' || c == '~'
        || c == '!' || c == '{' || c == '}'
}

/// The characters that a shell reads as themselves wherever they stand: all
/// but the special ones.
pub open spec fn is_plain_char(c: char) -> bool {
    !is_special_char(c)
}

/// A token that needs no quoting: not empty, and without a special character.
pub open spec fn is_plain(s: Seq<char>) -> bool {
    s.len() > 0 && forall|i: int| 0 <= i < s.len() ==> is_plain_char(#[trigger] s[i])
}

/// What stands for one character inside single quotes: a single quote closes
/// the quotes, is written behind a backslash, and opens them again.
pub open spec fn escape_char(c: char) -> Seq<char> {
    if c == '\'' {
        seq!['\'', '\\', '\'', '\'']
    } else {
        seq![c]
    }
}

/// The characters of `s`, each one escaped for single quotes.
pub open spec fn escaped(s: Seq<char>) -> Seq<char>
    decreases s.len(),
{
    if s.len() == 0 {
        Seq::empty()
    } else {
        escape_char(s[0]) + escaped(s.skip(1))
    }
}

/// The shell word that stands for the token `s`: `s` itself, unchanged, where
/// it is not empty and holds no special character; else `s` in single quotes.
pub open spec fn quoted(s: Seq<char>) -> Seq<char> {
    if is_plain(s) {
        s
    } else {
        seq!['\''] + escaped(s) + seq!['\'']
    }
}

/// `c` in front of the value `rest`, where there is one.
pub open spec fn prepend(c: char, rest: Option<Seq<char>>) -> Option<Seq<char>> {
    match rest {
        Some(r) => Some(seq![c] + r),
        None => None,
    }
}

/// How a shell reads `w` as one word: the argument it hands on, or `None`
/// where `w` is not one complete word (a character with a meaning of its own
/// stands bare, or a quote is left open). `in_quotes` says whether a single
/// quote is open where `w` starts.
pub open spec fn word_value(w: Seq<char>, in_quotes: bool) -> Option<Seq<char>>
    decreases w.len(),
{
    if w.len() == 0 {
        if in_quotes {
            None
        } else {
            Some(Seq::empty())
        }
    } else if in_quotes {
        if w[0] == '\'' {
            word_value(w.skip(1), false)
        } else {
            prepend(w[0], word_value(w.skip(1), true))
        }
    } else if w[0] == '\'' {
        word_value(w.skip(1), true)
    } else if w[0] == '\\' && w.len() >= 2 && w[1] != '\n' {
        prepend(w[1], word_value(w.skip(2), false))
    } else if is_plain_char(w[0]) {
        prepend(w[0], word_value(w.skip(1), false))
    } else {
        None
    }
}

proof fn lemma_plain_value(s: Seq<char>)
    requires
        forall|i: int| 0 <= i < s.len() ==> is_plain_char(#[trigger] s[i]),
    ensures
        word_value(s, false) == Some(s),
    decreases s.len(),
{
    if s.len() > 0 {
        let r = s.skip(1);
        assert forall|i: int| 0 <= i < r.len() implies is_plain_char(#[trigger] r[i]) by {
            assert(r[i] == s[i + 1]);
        }
        lemma_plain_value(r);
        assert(seq![s[0]] + r =~= s);
    }
}

proof fn lemma_escaped_value(s: Seq<char>)
    ensures
        word_value(escaped(s) + seq!['\''], true) == Some(s),
    decreases s.len(),
{
    let close = seq!['\''];
    let w = escaped(s) + close;
    if s.len() == 0 {
        assert(w =~= close);
        assert(w.skip(1) =~= Seq::<char>::empty());
        assert(word_value(w.skip(1), false) == Some(Seq::<char>::empty()));
        assert(s =~= Seq::<char>::empty());
    } else {
        let r = s.skip(1);
        let tail = escaped(r) + close;
        lemma_escaped_value(r);
        assert(seq![s[0]] + r =~= s);
        if s[0] == '\'' {
            let w1 = seq!['\\', '\'', '\''] + tail;
            let w2 = seq!['\''] + tail;
            assert(w =~= seq!['\''] + w1);
            assert(w.skip(1) =~= w1);
            assert(word_value(w, true) == word_value(w1, false));
            assert(w1.skip(2) =~= w2);
            assert(w1[0] == '\\' && w1[1] == '\'');
            assert(word_value(w1, false) == prepend('\'', word_value(w2, false)));
            assert(w2.skip(1) =~= tail);
            assert(word_value(w2, false) == word_value(tail, true));
        } else {
            assert(w =~= seq![s[0]] + tail);
            assert(w.skip(1) =~= tail);
            assert(word_value(w, true) == prepend(s[0], word_value(tail, true)));
        }
    }
}

/// A quoted token is one shell word, and the shell reads the token back from
/// it: no character of the token splits the word, ends the command or starts
/// an expansion.
pub proof fn quoted_word_reads_back(s: Seq<char>)
    ensures
        word_value(quoted(s), false) == Some(s),
{
    if is_plain(s) {
        lemma_plain_value(s);
    } else {
        let w = seq!['\''] + escaped(s) + seq!['\''];
        lemma_escaped_value(s);
        assert(w.skip(1) =~= escaped(s) + seq!['\'']);
        assert(w[0] == '\'');
    }
}

/// Two tokens with the same quoted word are the same token.
pub proof fn quoted_is_injective(s: Seq<char>, t: Seq<char>)
    requires
        quoted(s) == quoted(t),
    ensures
        s == t,
{
    quoted_word_reads_back(s);
    quoted_word_reads_back(t);
}

/// `first` in front of the first of `words`.
pub open spec fn extend_first(first: Seq<char>, words: Seq<Seq<char>>) -> Seq<Seq<char>>
    recommends
        words.len() > 0,
{
    seq![first + words[0]] + words.skip(1)
}

/// How a shell parts a line into words: at each blank that stands outside
/// single quotes and behind no backslash. The words are given as they are
/// written, quotes included; between two blanks stands an empty word.
/// `in_quotes` says whether a single quote is open where `line` starts.
pub open spec fn split_words(line: Seq<char>, in_quotes: bool) -> Seq<Seq<char>>
    decreases line.len(),
{
    if line.len() == 0 {
        seq![Seq::empty()]
    } else if in_quotes {
        extend_first(seq![line[0]], split_words(line.skip(1), line[0] != '\''))
    } else if line[0] == ' ' {
        seq![Seq::empty()] + split_words(line.skip(1), false)
    } else if line[0] == '\\' && line.len() >= 2 {
        extend_first(seq![line[0], line[1]], split_words(line.skip(2), false))
    } else {
        extend_first(seq![line[0]], split_words(line.skip(1), line[0] == '\''))
    }
}

/// Whether a shell that has read `t` is outside single quotes, with no
/// backslash left at the end: what follows `t` is read as if nothing stood
/// in front of it.
pub open spec fn closed(t: Seq<char>, in_quotes: bool) -> bool
    decreases t.len(),
{
    if t.len() == 0 {
        !in_quotes
    } else if in_quotes {
        closed(t.skip(1), t[0] != '\'')
    } else if t[0] == '\\' {
        t.len() >= 2 && closed(t.skip(2), false)
    } else {
        closed(t.skip(1), t[0] == '\'')
    }
}

/// Whether `t` is one whole word to the shell: closed, and not parted.
pub open spec fn one_word(t: Seq<char>) -> bool {
    closed(t, false) && split_words(t, false) == seq![t]
}

proof fn lemma_split_nonempty(line: Seq<char>, in_quotes: bool)
    ensures
        split_words(line, in_quotes).len() >= 1,
    decreases line.len(),
{
    if line.len() > 0 {
        lemma_split_nonempty(line.skip(1), false);
        lemma_split_nonempty(line.skip(1), true);
        if line.len() >= 2 {
            lemma_split_nonempty(line.skip(2), false);
        }
    }
}

proof fn lemma_extend_first_append(first: Seq<char>, a: Seq<Seq<char>>, b: Seq<Seq<char>>)
    requires
        a.len() >= 1,
    ensures
        extend_first(first, a + b) == extend_first(first, a) + b,
{
    assert((a + b).skip(1) =~= a.skip(1) + b);
    assert(extend_first(first, a + b) =~= extend_first(first, a) + b);
}

pub(crate) proof fn lemma_split_append(t: Seq<char>, rest: Seq<char>, in_quotes: bool)
    requires
        closed(t, in_quotes),
    ensures
        split_words(t + seq![' '] + rest, in_quotes) == split_words(t, in_quotes) + split_words(
            rest,
            false,
        ),
    decreases t.len(),
{
    let line = t + seq![' '] + rest;
    if t.len() == 0 {
        assert(line.skip(1) =~= rest);
        assert(line[0] == ' ');
    } else {
        assert(line[0] == t[0]);
        assert(line.skip(1) =~= t.skip(1) + seq![' '] + rest);
        if !in_quotes && t[0] == ' ' {
            lemma_split_append(t.skip(1), rest, false);
            assert(seq![Seq::<char>::empty()] + (split_words(t.skip(1), false) + split_words(
                rest,
                false,
            )) =~= (seq![Seq::<char>::empty()] + split_words(t.skip(1), false)) + split_words(
                rest,
                false,
            ));
        } else if !in_quotes && t[0] == '\\' {
            assert(line[1] == t[1]);
            assert(line.skip(2) =~= t.skip(2) + seq![' '] + rest);
            lemma_split_append(t.skip(2), rest, false);
            lemma_split_nonempty(t.skip(2), false);
            lemma_extend_first_append(
                seq![t[0], t[1]],
                split_words(t.skip(2), false),
                split_words(rest, false),
            );
        } else {
            let then = if in_quotes {
                t[0] != '\''
            } else {
                t[0] == '\''
            };
            lemma_split_append(t.skip(1), rest, then);
            lemma_split_nonempty(t.skip(1), then);
            lemma_extend_first_append(
                seq![t[0]],
                split_words(t.skip(1), then),
                split_words(rest, false),
            );
        }
    }
}

pub(crate) proof fn lemma_closed_append(a: Seq<char>, b: Seq<char>, in_quotes: bool)
    requires
        closed(a, in_quotes),
        closed(b, false),
    ensures
        closed(a + b, in_quotes),
    decreases a.len(),
{
    let line = a + b;
    if a.len() == 0 {
        assert(line =~= b);
    } else {
        assert(line[0] == a[0]);
        assert(line.skip(1) =~= a.skip(1) + b);
        if !in_quotes && a[0] == '\\' {
            assert(line.skip(2) =~= a.skip(2) + b);
            lemma_closed_append(a.skip(2), b, false);
        } else {
            let then = if in_quotes {
                a[0] != '\''
            } else {
                a[0] == '\''
            };
            lemma_closed_append(a.skip(1), b, then);
        }
    }
}

pub(crate) proof fn lemma_plain_is_word(s: Seq<char>)
    requires
        forall|i: int| 0 <= i < s.len() ==> is_plain_char(#[trigger] s[i]),
    ensures
        one_word(s),
    decreases s.len(),
{
    if s.len() > 0 {
        let r = s.skip(1);
        assert forall|i: int| 0 <= i < r.len() implies is_plain_char(#[trigger] r[i]) by {
            assert(r[i] == s[i + 1]);
        }
        lemma_plain_is_word(r);
        assert(is_plain_char(s[0]));
        assert(split_words(s, false) == extend_first(seq![s[0]], seq![r]));
        assert(seq![s[0]] + r =~= s);
        assert(extend_first(seq![s[0]], seq![r]) =~= seq![s]);
    } else {
        assert(s =~= Seq::<char>::empty());
    }
}

proof fn lemma_escaped_is_word(s: Seq<char>)
    ensures
        closed(escaped(s) + seq!['\''], true),
        split_words(escaped(s) + seq!['\''], true) == seq![escaped(s) + seq!['\'']],
    decreases s.len(),
{
    let close = seq!['\''];
    let w = escaped(s) + close;
    if s.len() == 0 {
        assert(w =~= close);
        assert(w.skip(1) =~= Seq::<char>::empty());
        assert(closed(w.skip(1), false));
        assert(split_words(w.skip(1), false) == seq![Seq::<char>::empty()]);
        assert(extend_first(seq!['\''], seq![Seq::<char>::empty()]) =~= seq![w]);
    } else {
        let r = s.skip(1);
        let tail = escaped(r) + close;
        lemma_escaped_is_word(r);
        if s[0] == '\'' {
            let w1 = seq!['\\', '\'', '\''] + tail;
            let w2 = seq!['\''] + tail;
            assert(w =~= seq!['\''] + w1);
            assert(w.skip(1) =~= w1);
            assert(w1.skip(2) =~= w2);
            assert(w1[0] == '\\' && w1[1] == '\'');
            assert(w2.skip(1) =~= tail);
            assert(w2[0] == '\'');
            assert(closed(w2, false));
            assert(closed(w1, false));
            assert(split_words(w2, false) == extend_first(seq!['\''], seq![tail]));
            assert(extend_first(seq!['\''], seq![tail]) =~= seq![w2]);
            assert(split_words(w1, false) == extend_first(seq!['\\', '\''], seq![w2]));
            assert(seq!['\\', '\''] + w2 =~= w1);
            assert(extend_first(seq!['\\', '\''], seq![w2]) =~= seq![w1]);
            assert(split_words(w, true) == extend_first(seq!['\''], seq![w1]));
            assert(extend_first(seq!['\''], seq![w1]) =~= seq![w]);
        } else {
            assert(w =~= seq![s[0]] + tail);
            assert(w.skip(1) =~= tail);
            assert(split_words(w, true) == extend_first(seq![s[0]], seq![tail]));
            assert(extend_first(seq![s[0]], seq![tail]) =~= seq![w]);
        }
    }
}

/// A quoted token is one whole word to the shell, whatever the token holds:
/// no blank in it parts the word, and no quote in it is left open.
pub proof fn quoted_is_one_word(s: Seq<char>)
    ensures
        one_word(quoted(s)),
{
    if is_plain(s) {
        lemma_plain_is_word(s);
    } else {
        let inner = escaped(s) + seq!['\''];
        let w = seq!['\''] + escaped(s) + seq!['\''];
        lemma_escaped_is_word(s);
        assert(w.skip(1) =~= inner);
        assert(w[0] == '\'');
        assert(split_words(w, false) == extend_first(seq!['\''], seq![inner]));
        assert(seq!['\''] + inner =~= w);
        assert(extend_first(seq!['\''], seq![inner]) =~= seq![w]);
    }
}

proof fn lemma_words_after(head: Seq<char>, words: Seq<Seq<char>>)
    requires
        closed(head, false),
        forall|i: int| 0 <= i < words.len() ==> one_word(#[trigger] words[i]),
    ensures
        closed(head + glued(words, ' '), false),
        split_words(head + glued(words, ' '), false) == split_words(head, false) + words,
    decreases words.len(),
{
    if words.len() == 0 {
        assert(head + glued(words, ' ') =~= head);
        assert(split_words(head, false) + words =~= split_words(head, false));
    } else {
        let first = words[0];
        let others = words.skip(1);
        let blank = seq![' '] + first;
        let longer = head + seq![' '] + first;
        assert(one_word(first));
        assert(blank.skip(1) =~= first);
        assert(closed(blank, false));
        lemma_closed_append(head, blank, false);
        assert(head + blank =~= longer);
        lemma_split_append(head, first, false);
        assert forall|i: int| 0 <= i < others.len() implies one_word(#[trigger] others[i]) by {
            assert(others[i] == words[i + 1]);
        }
        lemma_words_after(longer, others);
        assert(longer + glued(others, ' ') =~= head + glued(words, ' '));
        assert(split_words(head, false) + seq![first] + others =~= split_words(head, false)
            + words);
    }
}

/// Arguments that are appended quoted to a line are read by the shell as
/// they were given, one word each: whatever an argument holds, it parts no
/// word, joins no other word and changes nothing of how the text in front
/// of it is read.
pub proof fn quoted_arguments_are_words(head: Seq<char>, args: Seq<Seq<char>>)
    requires
        closed(head, false),
    ensures
        split_words(head + glued(quoted_all(args), ' '), false) == split_words(head, false)
            + quoted_all(args),
        forall|i: int|
            0 <= i < args.len() ==> word_value(#[trigger] quoted_all(args)[i], false) == Some(
                args[i],
            ),
{
    let words = quoted_all(args);
    assert forall|i: int| 0 <= i < words.len() implies one_word(#[trigger] words[i]) by {
        quoted_is_one_word(args[i]);
    }
    lemma_words_after(head, words);
    assert forall|i: int| 0 <= i < args.len() implies word_value(
        #[trigger] quoted_all(args)[i],
        false,
    ) == Some(args[i]) by {
        quoted_word_reads_back(args[i]);
    }
}

/// Whether `c` is a plain character.
pub fn plain_char(c: char) -> (r: bool)
    ensures
        r == is_plain_char(c),
{
    !(c == ' ' || c == '\t' || c == '\n' || c == '\'' || c == '"' || c == '\\' || c == '$'
        || c == '`' || c == ';' || c == '&' || c == '|' || c == '<' || c == '>' || c == '('
        || c == ')' || c == '*' || c == '?' || c == '[' || c == ']' || c == '#' || c == '~'
        || c == '!' || c == '{' || c == '}')
}

/// Whether `s` needs no quoting.
pub fn plain(s: &str) -> (r: bool)
    ensures
        r == is_plain(s@),
{
    let n: usize = s.unicode_len();
    let mut i: usize = 0;
    while i < n
        invariant
            i <= n,
            n == s@.len(),
            forall|j: int| 0 <= j < i ==> is_plain_char(#[trigger] s@[j]),
        decreases n - i,
    {
        if !plain_char(s.get_char(i)) {
            return false;
        }
        i += 1;
    }
    n > 0
}

/// Quotes one token for the shell: a token that is not empty and holds no
/// special character is returned as it is, any other one in single quotes,
/// with each single quote inside it escaped.
pub fn shell_quote(s: &str) -> (r: String)
    ensures
        r@ == quoted(s@),
{
    if plain(s) {
        return s.to_owned();
    }
    let n: usize = s.unicode_len();
    let mut out = "'".to_owned();
    proof {
        reveal_strlit("'");
        reveal_strlit("'\\''");
        assert(out@ =~= seq!['\'']);
        assert(s@.skip(0) =~= s@);
    }
    let mut i: usize = 0;
    while i < n
        invariant
            i <= n,
            n == s@.len(),
            "'\\''"@ =~= seq!['\'', '\\', '\'', '\''],
            out@ + escaped(s@.skip(i as int)) == seq!['\''] + escaped(s@),
        decreases n - i,
    {
        let c = s.get_char(i);
        proof {
            assert(s@.skip(i as int).skip(1) =~= s@.skip(i + 1));
            assert(s@.skip(i as int)[0] == c);
            assert(s@.subrange(i as int, i + 1) =~= seq![c]);
        }
        let ghost before = out@;
        if c == '\'' {
            out.append("'\\''");
        } else {
            out.append(s.substring_char(i, i + 1));
        }
        proof {
            assert(out@ == before + escape_char(c));
            assert(out@ + escaped(s@.skip(i + 1)) =~= before + escaped(s@.skip(i as int)));
        }
        i += 1;
    }
    proof {
        assert(s@.skip(n as int) =~= Seq::<char>::empty());
        assert(out@ + Seq::<char>::empty() =~= out@);
    }
    out.append("'");
    out
}

/// The tokens of a vector of strings, each as its characters.
pub open spec fn views(tokens: Seq<String>) -> Seq<Seq<char>> {
    tokens.map_values(|t: String| t@)
}

/// Each token with the separator in front of it, one after the other.
pub open spec fn glued(tokens: Seq<Seq<char>>, separator: char) -> Seq<char>
    decreases tokens.len(),
{
    if tokens.len() == 0 {
        Seq::empty()
    } else {
        seq![separator] + tokens[0] + glued(tokens.skip(1), separator)
    }
}

/// The tokens in order with the separator between each two of them: nothing
/// in front of the first, nothing behind the last.
pub open spec fn joined(tokens: Seq<Seq<char>>, separator: char) -> Seq<char> {
    if tokens.len() == 0 {
        Seq::empty()
    } else {
        tokens[0] + glued(tokens.skip(1), separator)
    }
}

/// Joins a first token and the others through `welder::Welder`:
/// `Welder::with_start` with the separator as glue and the first token,
/// which it takes without glue; `elems` for the others, which puts the glue
/// in front of each; and `weld`, which hands out what was accumulated. The
/// contract claims that the result is the first token followed by each other
/// token behind one separator.
#[verifier::external_body]
fn weld(separator: char, first: &str, rest: &[String]) -> (r: String)
    ensures
        r@ == first@ + glued(views(rest@), separator),
{
    Welder::with_start(separator, first).elems(rest.iter().map(|t| t.as_str())).weld()
}

/// One line of a shell script while it is built: its tokens in order, and
/// the separator that rendering puts between them.
pub struct ScriptLine {
    pub tokens: Vec<String>,
    pub separator: char,
}

impl View for ScriptLine {
    type V = Seq<Seq<char>>;

    open spec fn view(&self) -> Seq<Seq<char>> {
        views(self.tokens@)
    }
}

impl ScriptLine {
    /// A line without tokens.
    pub fn new(separator: char) -> (r: ScriptLine)
        ensures
            r@ == Seq::<Seq<char>>::empty(),
            r.separator == separator,
    {
        let r = ScriptLine { tokens: Vec::new(), separator };
        assert(r@ =~= Seq::<Seq<char>>::empty());
        r
    }

    /// Appends a token as it is: a word of the script itself, which the shell
    /// is meant to read (`&&`, a command's name).
    pub fn literal(&mut self, token: &str)
        ensures
            final(self)@ == old(self)@.push(token@),
            final(self).separator == old(self).separator,
    {
        self.tokens.push(token.to_owned());
        assert(self@ =~= old(self)@.push(token@));
    }

    /// Appends a token that the shell must hand on unread: it is quoted.
    pub fn arg(&mut self, token: &str)
        ensures
            final(self)@ == old(self)@.push(quoted(token@)),
            final(self).separator == old(self).separator,
    {
        self.tokens.push(shell_quote(token));
        assert(self@ =~= old(self)@.push(quoted(token@)));
    }

    /// Appends each of `tokens`, quoted, in order.
    pub fn args(&mut self, tokens: &Vec<String>)
        ensures
            final(self)@ == old(self)@ + quoted_all(views(tokens@)),
            final(self).separator == old(self).separator,
    {
        let mut i: usize = 0;
        assert(self@ =~= old(self)@ + quoted_all(views(tokens@).take(0)));
        while i < tokens.len()
            invariant
                i <= tokens.len(),
                self@ == old(self)@ + quoted_all(views(tokens@).take(i as int)),
                self.separator == old(self).separator,
            decreases tokens.len() - i,
        {
            let ghost before = self@;
            self.arg(tokens[i].as_str());
            proof {
                let all = views(tokens@);
                assert(all[i as int] == tokens@[i as int]@);
                assert(quoted_all(all.take(i + 1)) =~= quoted_all(all.take(i as int)).push(
                    quoted(all[i as int]),
                ));
                assert(self@ =~= old(self)@ + quoted_all(all.take(i + 1)));
            }
            i += 1;
        }
        assert(views(tokens@).take(i as int) =~= views(tokens@));
    }

    /// The line as one string: the tokens with the separator between them,
    /// and nothing in front of the first or behind the last. A line without
    /// tokens is the empty string.
    pub fn render(&self) -> (r: String)
        ensures
            r@ == joined(self@, self.separator),
    {
        if self.tokens.len() == 0 {
            return String::new();
        }
        let (head, rest) = self.tokens.as_slice().split_at(1);
        assert(views(rest@) =~= self@.skip(1));
        assert(head@[0] == self.tokens@[0]);
        weld(self.separator, head[0].as_str(), rest)
    }
}

/// The shell words of a list of arguments: each one quoted.
pub open spec fn quoted_all(args: Seq<Seq<char>>) -> Seq<Seq<char>> {
    args.map_values(|a: Seq<char>| quoted(a))
}

/// What the user asked the build tool for.
#[derive(Clone, Copy, Debug, PartialEq, Eq, Structural)]
pub enum SubcommandKind {
    Build,
    Check,
    Doc,
    Run,
    Test,
    Bench,
}

/// What the remote build tool is asked for. The remote side only ever
/// builds: running, testing and measuring are left to the local machine, so
/// `Run` builds, `Test` builds the tests and `Bench` builds the benchmarks.
pub open spec fn subcommand_tokens(kind: SubcommandKind) -> Seq<Seq<char>> {
    match kind {
        SubcommandKind::Build => seq!["build"@],
        SubcommandKind::Check => seq!["check"@],
        SubcommandKind::Doc => seq!["doc"@],
        SubcommandKind::Run => seq!["build"@],
        SubcommandKind::Test => seq!["build"@, "--tests"@],
        SubcommandKind::Bench => seq!["build"@, "--benches"@],
    }
}

/// The directory of a workspace below the remote home, as one shell word:
/// `$HOME` is left for the remote shell to expand, the workspace's name is
/// quoted.
pub open spec fn workspace_dir(id: Seq<char>) -> Seq<char> {
    "$HOME/.distant/"@ + quoted(id)
}

/// The tokens of the remote script: stop at the first failure, enter the
/// workspace, then run the build tool with the subcommand's tokens and the
/// user's arguments.
pub open spec fn script_tokens(
    id: Seq<char>,
    toolchain: Seq<char>,
    kind: SubcommandKind,
    args: Seq<Seq<char>>,
) -> Seq<Seq<char>> {
    seq!["set"@, "-e"@, "&&"@, "cd"@, workspace_dir(id), "&&"@, toolchain] + subcommand_tokens(
        kind,
    ) + quoted_all(args)
}

/// Appends the tokens that ask the remote build tool for `kind`.
pub fn push_subcommand(line: &mut ScriptLine, kind: SubcommandKind)
    ensures
        final(line)@ == old(line)@ + subcommand_tokens(kind),
        final(line).separator == old(line).separator,
{
    match kind {
        SubcommandKind::Build | SubcommandKind::Run => {
            line.literal("build");
        },
        SubcommandKind::Check => {
            line.literal("check");
        },
        SubcommandKind::Doc => {
            line.literal("doc");
        },
        SubcommandKind::Test => {
            line.literal("build");
            line.literal("--tests");
        },
        SubcommandKind::Bench => {
            line.literal("build");
            line.literal("--benches");
        },
    }
    assert(line@ =~= old(line)@ + subcommand_tokens(kind));
}

/// The directory of the workspace `id` on the remote machine, as one shell
/// word.
pub fn remote_dir(id: &str) -> (r: String)
    ensures
        r@ == workspace_dir(id@),
{
    let mut dir = "$HOME/.distant/".to_owned();
    dir.append(shell_quote(id).as_str());
    dir
}

/// The script that is piped into the remote shell. `id` names the workspace,
/// `toolchain` is the invocation of the remote build tool, taken as it is;
/// `args` are handed on to the build tool, each as one argument.
pub fn remote_script(id: &str, toolchain: &str, kind: SubcommandKind, args: &Vec<String>) -> (r:
    String)
    ensures
        r@ == joined(script_tokens(id@, toolchain@, kind, views(args@)), ' '),
{
    let dir = remote_dir(id);
    let mut line = ScriptLine::new(' ');
    line.literal("set");
    line.literal("-e");
    line.literal("&&");
    line.literal("cd");
    line.literal(dir.as_str());
    line.literal("&&");
    line.literal(toolchain);
    assert(line@ =~= seq!["set"@, "-e"@, "&&"@, "cd"@, workspace_dir(id@), "&&"@, toolchain@]);
    push_subcommand(&mut line, kind);
    line.args(args);
    line.render()
}

/// Whatever is built, the script starts with the directive that stops it at
/// the first failing step, and enters the workspace before the build tool
/// runs.
pub proof fn script_fails_fast(
    id: Seq<char>,
    toolchain: Seq<char>,
    kind: SubcommandKind,
    args: Seq<Seq<char>>,
)
    ensures
        script_tokens(id, toolchain, kind, args).len() >= 8,
        script_tokens(id, toolchain, kind, args).take(7) == seq![
            "set"@,
            "-e"@,
            "&&"@,
            "cd"@,
            workspace_dir(id),
            "&&"@,
            toolchain,
        ],
        joined(script_tokens(id, toolchain, kind, args), ' ').len() >= 10,
        joined(script_tokens(id, toolchain, kind, args), ' ').take(10) == "set -e && "@,
{
    let t = script_tokens(id, toolchain, kind, args);
    assert(subcommand_tokens(kind).len() >= 1);
    assert(t.take(7) =~= seq!["set"@, "-e"@, "&&"@, "cd"@, workspace_dir(id), "&&"@, toolchain]);
    reveal_strlit("set");
    reveal_strlit("-e");
    reveal_strlit("&&");
    reveal_strlit("set -e && ");
    let t1 = t.skip(1);
    let t2 = t1.skip(1);
    let t3 = t2.skip(1);
    let j = joined(t, ' ');
    assert(t1[0] == "-e"@ && t2[0] == "&&"@ && t3.len() > 0);
    assert(glued(t1, ' ') == seq![' '] + t1[0] + glued(t2, ' '));
    assert(glued(t2, ' ') == seq![' '] + t2[0] + glued(t3, ' '));
    assert(glued(t3, ' ') == seq![' '] + t3[0] + glued(t3.skip(1), ' '));
    assert(j.len() >= 10);
    assert(j.take(10) =~= "set -e && "@);
}

/// The remote side never tests: asked for the tests, the script asks the
/// build tool to `build --tests`; and whatever it is asked for, the
/// subcommand handed to the build tool is not `test`.
pub proof fn tests_are_built_not_run(
    id: Seq<char>,
    toolchain: Seq<char>,
    kind: SubcommandKind,
    args: Seq<Seq<char>>,
)
    ensures
        script_tokens(id, toolchain, kind, args)[7] != "test"@,
        kind == SubcommandKind::Test ==> script_tokens(id, toolchain, kind, args)[7] == "build"@
            && script_tokens(id, toolchain, kind, args)[8] == "--tests"@,
{
    reveal_strlit("test");
    reveal_strlit("build");
    reveal_strlit("check");
    reveal_strlit("doc");
    assert("test"@.len() == 4 && "build"@.len() == 5 && "check"@.len() == 5 && "doc"@.len() == 3);
}

/// Arguments that are not empty and hold no special character are handed
/// on as they are, and a workspace with such a name is entered by its name
/// as it is: the script is then the plain join of its parts.
pub proof fn plain_arguments_are_forwarded(
    id: Seq<char>,
    toolchain: Seq<char>,
    kind: SubcommandKind,
    args: Seq<Seq<char>>,
)
    requires
        forall|i: int| 0 <= i < args.len() ==> is_plain(#[trigger] args[i]),
    ensures
        quoted_all(args) == args,
        is_plain(id) ==> workspace_dir(id) == "$HOME/.distant/"@ + id,
        is_plain(id) ==> script_tokens(id, toolchain, kind, args) == seq![
            "set"@,
            "-e"@,
            "&&"@,
            "cd"@,
            "$HOME/.distant/"@ + id,
            "&&"@,
            toolchain,
        ] + subcommand_tokens(kind) + args,
{
    assert(quoted_all(args) =~= args);
}

/// Each argument of the user stands in the script as one word, from which
/// the shell reads the argument back as it was given.
pub proof fn arguments_stay_whole(
    id: Seq<char>,
    toolchain: Seq<char>,
    kind: SubcommandKind,
    args: Seq<Seq<char>>,
    i: int,
)
    requires
        0 <= i < args.len(),
    ensures
        script_tokens(id, toolchain, kind, args).len() == 7 + subcommand_tokens(kind).len()
            + args.len(),
        word_value(
            script_tokens(id, toolchain, kind, args)[7 + subcommand_tokens(kind).len() + i],
            false,
        ) == Some(args[i]),
{
    quoted_word_reads_back(args[i]);
}

/// Tokens that are one word each are the words of the line they are joined
/// to with blanks: the shell parts the line where the tokens meet, and
/// nowhere else.
pub proof fn joined_words_split_back(tokens: Seq<Seq<char>>)
    requires
        tokens.len() > 0,
        forall|i: int| 0 <= i < tokens.len() ==> one_word(#[trigger] tokens[i]),
    ensures
        split_words(joined(tokens, ' '), false) == tokens,
{
    let others = tokens.skip(1);
    assert(one_word(tokens[0]));
    assert forall|i: int| 0 <= i < others.len() implies one_word(#[trigger] others[i]) by {
        assert(others[i] == tokens[i + 1]);
    }
    lemma_words_after(tokens[0], others);
    assert(seq![tokens[0]] + others =~= tokens);
}

proof fn lemma_bare_closed(t: Seq<char>)
    requires
        forall|i: int| 0 <= i < t.len() ==> #[trigger] t[i] != '\'' && t[i] != '\\',
    ensures
        closed(t, false),
    decreases t.len(),
{
    if t.len() > 0 {
        let r = t.skip(1);
        assert forall|i: int| 0 <= i < r.len() implies #[trigger] r[i] != '\'' && r[i] != '\\' by {
            assert(r[i] == t[i + 1]);
        }
        lemma_bare_closed(r);
    }
}

proof fn lemma_glued_closed(tokens: Seq<Seq<char>>)
    requires
        forall|i: int| 0 <= i < tokens.len() ==> closed(#[trigger] tokens[i], false),
    ensures
        closed(glued(tokens, ' '), false),
    decreases tokens.len(),
{
    if tokens.len() > 0 {
        let others = tokens.skip(1);
        let blank = seq![' '] + tokens[0];
        assert(closed(tokens[0], false));
        assert(blank.skip(1) =~= tokens[0]);
        assert(closed(blank, false));
        assert forall|i: int| 0 <= i < others.len() implies closed(
            #[trigger] others[i],
            false,
        ) by {
            assert(others[i] == tokens[i + 1]);
        }
        lemma_glued_closed(others);
        lemma_closed_append(blank, glued(others, ' '), false);
    }
}

proof fn lemma_glued_append(a: Seq<Seq<char>>, b: Seq<Seq<char>>, separator: char)
    ensures
        glued(a + b, separator) == glued(a, separator) + glued(b, separator),
    decreases a.len(),
{
    if a.len() == 0 {
        assert(a + b =~= b);
        assert(glued(a, separator) + glued(b, separator) =~= glued(b, separator));
    } else {
        assert((a + b)[0] == a[0]);
        assert((a + b).skip(1) =~= a.skip(1) + b);
        lemma_glued_append(a.skip(1), b, separator);
        assert(glued(a + b, separator) =~= glued(a, separator) + glued(b, separator));
    }
}

proof fn lemma_literals_closed()
    ensures
        closed("set"@, false),
        closed("-e"@, false),
        closed("&&"@, false),
        closed("cd"@, false),
        closed("$HOME/.distant/"@, false),
        closed("build"@, false),
        closed("check"@, false),
        closed("doc"@, false),
        closed("--tests"@, false),
        closed("--benches"@, false),
{
    reveal_strlit("set");
    reveal_strlit("-e");
    reveal_strlit("&&");
    reveal_strlit("cd");
    reveal_strlit("$HOME/.distant/");
    reveal_strlit("build");
    reveal_strlit("check");
    reveal_strlit("doc");
    reveal_strlit("--tests");
    reveal_strlit("--benches");
    lemma_bare_closed("set"@);
    lemma_bare_closed("-e"@);
    lemma_bare_closed("&&"@);
    lemma_bare_closed("cd"@);
    lemma_bare_closed("$HOME/.distant/"@);
    lemma_bare_closed("build"@);
    lemma_bare_closed("check"@);
    lemma_bare_closed("doc"@);
    lemma_bare_closed("--tests"@);
    lemma_bare_closed("--benches"@);
}

/// In the whole script each argument of the user is one word. Where the
/// build tool's invocation leaves no quote open, the shell reads the script
/// as the script without arguments, followed by one word for each argument,
/// in order: the argument, quoted.
pub proof fn script_arguments_are_words(
    id: Seq<char>,
    toolchain: Seq<char>,
    kind: SubcommandKind,
    args: Seq<Seq<char>>,
)
    requires
        closed(toolchain, false),
    ensures
        joined(script_tokens(id, toolchain, kind, args), ' ') == joined(
            script_tokens(id, toolchain, kind, Seq::empty()),
            ' ',
        ) + glued(quoted_all(args), ' '),
        split_words(joined(script_tokens(id, toolchain, kind, args), ' '), false) == split_words(
            joined(script_tokens(id, toolchain, kind, Seq::empty()), ' '),
            false,
        ) + quoted_all(args),
{
    let none = Seq::<Seq<char>>::empty();
    let command = script_tokens(id, toolchain, kind, none);
    let all = script_tokens(id, toolchain, kind, args);
    let words = quoted_all(args);
    assert(quoted_all(none) =~= none);
    assert(all =~= command + words);
    assert(command.len() >= 8);
    assert(all[0] == command[0]);
    assert(all.skip(1) =~= command.skip(1) + words);
    lemma_glued_append(command.skip(1), words, ' ');
    assert(joined(all, ' ') =~= joined(command, ' ') + glued(words, ' '));
    lemma_literals_closed();
    quoted_is_one_word(id);
    lemma_closed_append("$HOME/.distant/"@, quoted(id), false);
    let others = command.skip(1);
    assert forall|i: int| 0 <= i < command.len() implies closed(
        #[trigger] command[i],
        false,
    ) by {
        if i >= 7 {
            assert(command[i] == subcommand_tokens(kind)[i - 7]);
        }
    }
    assert forall|i: int| 0 <= i < others.len() implies closed(#[trigger] others[i], false) by {
        assert(others[i] == command[i + 1]);
    }
    lemma_glued_closed(others);
    lemma_closed_append(command[0], glued(others, ' '), false);
    quoted_arguments_are_words(joined(command, ' '), args);
}

} // verus!
