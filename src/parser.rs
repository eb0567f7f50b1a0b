//! Parsing of one client line into a tagged command.

use vstd::prelude::*;
use vstd::string::*;

verus! {

/// Characters stripped from both ends of a received line.
pub open spec fn is_padding(c: char) -> bool {
    c == '\0' || c == '\n' || c == '\r'
}

/// The text after its leading padding.
pub open spec fn trim_front(s: Seq<char>) -> Seq<char>
    decreases s.len(),
{
    if s.len() > 0 && is_padding(s[0]) {
        trim_front(s.drop_first())
    } else {
        s
    }
}

/// The text before its trailing padding.
pub open spec fn trim_back(s: Seq<char>) -> Seq<char>
    decreases s.len(),
{
    if s.len() > 0 && is_padding(s.last()) {
        trim_back(s.drop_last())
    } else {
        s
    }
}

/// The line with its padding (NUL, line feed, carriage return) removed from both ends.
pub open spec fn trim_padding(s: Seq<char>) -> Seq<char> {
    trim_back(trim_front(s))
}

/// The pieces between single spaces, as `str::split(' ')` gives them:
/// `n` spaces give `n + 1` pieces, some of which may be empty.
pub open spec fn split_spaces(s: Seq<char>) -> Seq<Seq<char>>
    decreases s.len(),
{
    if s.len() == 0 {
        seq![Seq::<char>::empty()]
    } else {
        let init = split_spaces(s.drop_last());
        if s.last() == ' ' {
            init.push(Seq::<char>::empty())
        } else {
            init.update(init.len() - 1, init.last().push(s.last()))
        }
    }
}

/// The views of a sequence of strings.
pub open spec fn words_of(v: Seq<String>) -> Seq<Seq<char>> {
    v.map_values(|s: String| s@)
}

/// A client command: a correlation tag, a command name and its arguments.
pub struct Command {
    pub tag: String,
    pub name: String,
    pub args: Vec<String>,
}

/// The mathematical form of a [`Command`].
pub struct CommandView {
    pub tag: Seq<char>,
    pub name: Seq<char>,
    pub args: Seq<Seq<char>>,
}

impl View for Command {
    type V = CommandView;

    open spec fn view(&self) -> CommandView {
        CommandView { tag: self.tag@, name: self.name@, args: words_of(self.args@) }
    }
}

#[derive(Clone, Copy, Debug, PartialEq, Eq, Structural)]
pub enum ParseError {
    /// The line does not hold at least a tag and a command name.
    Malformed,
}

/// What a received line parses to: the first piece between spaces is the tag,
/// the second the command name, the rest the arguments. A line with no space,
/// or with nothing after its first space, has no command.
pub open spec fn parse_line(line: Seq<char>) -> Option<CommandView> {
    let w = split_spaces(trim_padding(line));
    if w.len() < 2 || (w.len() == 2 && w[1].len() == 0) {
        None
    } else {
        Some(CommandView { tag: w[0], name: w[1], args: w.subrange(2, w.len() as int) })
    }
}

proof fn lemma_split_spaces_nonempty(s: Seq<char>)
    ensures
        split_spaces(s).len() >= 1,
    decreases s.len(),
{
    if s.len() > 0 {
        lemma_split_spaces_nonempty(s.drop_last());
    }
}

fn is_padding_char(c: char) -> (r: bool)
    ensures
        r == is_padding(c),
{
    c == '\0' || c == '\n' || c == '\r'
}

/// Bounds `(start, end)` of the line without its padding.
fn padding_bounds(line: &str) -> (r: (usize, usize))
    ensures
        r.0 <= r.1 <= line@.len(),
        trim_padding(line@) == line@.subrange(r.0 as int, r.1 as int),
{
    let n = line.unicode_len();
    let ghost s = line@;
    let mut start: usize = 0;
    assert(s.subrange(0, n as int) =~= s);
    while start < n && is_padding_char(line.get_char(start))
        invariant
            n == s.len(),
            s == line@,
            start <= n,
            trim_front(s) == trim_front(s.subrange(start as int, n as int)),
        decreases n - start,
    {
        assert(s.subrange(start as int, n as int).drop_first() =~= s.subrange(
            start + 1,
            n as int,
        ));
        start = start + 1;
    }
    let ghost mid = s.subrange(start as int, n as int);
    assert(trim_front(mid) == mid);
    let mut end: usize = n;
    while end > start && is_padding_char(line.get_char(end - 1))
        invariant
            n == s.len(),
            s == line@,
            start <= end <= n,
            mid == s.subrange(start as int, n as int),
            trim_back(mid) == trim_back(s.subrange(start as int, end as int)),
        decreases end,
    {
        assert(s.subrange(start as int, end as int).drop_last() =~= s.subrange(
            start as int,
            end - 1,
        ));
        end = end - 1;
    }
    (start, end)
}

/// The pieces of `line[start..end]` between single spaces.
fn split_words(line: &str, start: usize, end: usize) -> (r: Vec<String>)
    requires
        start <= end <= line@.len(),
    ensures
        words_of(r@) == split_spaces(line@.subrange(start as int, end as int)),
{
    let ghost s = line@;
    let mut words: Vec<String> = Vec::new();
    let mut word_start: usize = start;
    let mut k: usize = start;
    assert(s.subrange(start as int, start as int) =~= Seq::<char>::empty());
    assert(words_of(words@).push(s.subrange(word_start as int, k as int)) =~= seq![
        Seq::<char>::empty(),
    ]);
    while k < end
        invariant
            s == line@,
            start <= word_start <= k <= end <= s.len(),
            words_of(words@).push(s.subrange(word_start as int, k as int)) == split_spaces(
                s.subrange(start as int, k as int),
            ),
        decreases end - k,
    {
        let c = line.get_char(k);
        let ghost before = s.subrange(start as int, k as int);
        let ghost after = s.subrange(start as int, k + 1);
        assert(after.drop_last() =~= before);
        assert(after.last() == c);
        if c == ' ' {
            let w = String::from_str(line.substring_char(word_start, k));
            let ghost old_words = words@;
            words.push(w);
            assert(words_of(words@) =~= words_of(old_words).push(w@));
            word_start = k + 1;
            k = k + 1;
            assert(s.subrange(word_start as int, k as int) =~= Seq::<char>::empty());
        } else {
            assert(s.subrange(word_start as int, k + 1) =~= s.subrange(
                word_start as int,
                k as int,
            ).push(c));
            k = k + 1;
            assert(words_of(words@).push(s.subrange(word_start as int, k as int)) =~= split_spaces(
                before,
            ).update(
                split_spaces(before).len() - 1,
                split_spaces(before).last().push(c),
            ));
        }
    }
    let last = String::from_str(line.substring_char(word_start, end));
    let ghost old_words = words@;
    words.push(last);
    assert(words_of(words@) =~= words_of(old_words).push(last@));
    words
}

/// Parses one received line (NUL, line-feed and carriage-return padding
/// allowed at both ends) into a command.
pub fn read_command(line: &str) -> (r: Result<Command, ParseError>)
    ensures
        r is Ok <==> parse_line(line@) is Some,
        r is Ok ==> r->Ok_0@ == parse_line(line@)->Some_0,
        r is Err ==> r->Err_0 == ParseError::Malformed,
{
    let (start, end) = padding_bounds(line);
    let words = split_words(line, start, end);
    let ghost w = words_of(words@);
    if words.len() < 2 || (words.len() == 2 && words[1].unicode_len() == 0) {
        return Err(ParseError::Malformed);
    }
    let tag = words[0].clone();
    let name = words[1].clone();
    let mut args: Vec<String> = Vec::new();
    let mut i: usize = 2;
    while i < words.len()
        invariant
            2 <= i <= words.len(),
            w == words_of(words@),
            words_of(args@) == w.subrange(2, i as int),
        decreases words.len() - i,
    {
        let a = words[i].clone();
        let ghost old_args = args@;
        args.push(a);
        assert(words_of(args@) =~= words_of(old_args).push(a@));
        assert(w.subrange(2, i + 1) =~= w.subrange(2, i as int).push(w[i as int]));
        i = i + 1;
    }
    let r = Command { tag, name, args };
    assert(r@.args == w.subrange(2, w.len() as int));
    Ok(r)
}

/// A piece that may stand between the spaces of a line: no space and no
/// padding character in it.
pub open spec fn is_word(w: Seq<char>) -> bool {
    forall|i: int| 0 <= i < w.len() ==> w[i] != ' ' && !is_padding(#[trigger] w[i])
}

/// Words joined by single spaces.
pub open spec fn join_words(ws: Seq<Seq<char>>) -> Seq<char>
    decreases ws.len(),
{
    if ws.len() == 0 {
        Seq::<char>::empty()
    } else if ws.len() == 1 {
        ws[0]
    } else {
        join_words(ws.drop_last()) + seq![' '] + ws.last()
    }
}

proof fn lemma_trim_unpadded(s: Seq<char>)
    requires
        forall|i: int| 0 <= i < s.len() ==> !is_padding(#[trigger] s[i]),
    ensures
        trim_padding(s) == s,
{
    if s.len() > 0 {
        assert(!is_padding(s[0]));
        assert(!is_padding(s[s.len() - 1]));
    }
}

proof fn lemma_split_word(w: Seq<char>)
    requires
        forall|i: int| 0 <= i < w.len() ==> #[trigger] w[i] != ' ',
    ensures
        split_spaces(w) == seq![w],
    decreases w.len(),
{
    if w.len() == 0 {
        assert(w =~= Seq::<char>::empty());
    } else {
        let init = w.drop_last();
        assert forall|i: int| 0 <= i < init.len() implies #[trigger] init[i] != ' ' by {
            assert(init[i] == w[i]);
        }
        lemma_split_word(init);
        assert(w[w.len() - 1] != ' ');
        assert(init.push(w.last()) =~= w);
        assert(split_spaces(w) == split_spaces(init).update(0, init.push(w.last())));
        assert(split_spaces(w) =~= seq![w]);
    }
}

proof fn lemma_split_concat(x: Seq<char>, y: Seq<char>)
    ensures
        split_spaces(x + seq![' '] + y) == split_spaces(x) + split_spaces(y),
    decreases y.len(),
{
    let z = x + seq![' '] + y;
    lemma_split_spaces_nonempty(x);
    if y.len() == 0 {
        assert(z.drop_last() =~= x);
        assert(z.last() == ' ');
        assert(split_spaces(x) + split_spaces(y) =~= split_spaces(x).push(Seq::<char>::empty()));
    } else {
        let y0 = y.drop_last();
        assert(z.drop_last() =~= x + seq![' '] + y0);
        assert(z.last() == y.last());
        lemma_split_concat(x, y0);
        lemma_split_spaces_nonempty(y0);
        let a = split_spaces(x);
        let b = split_spaces(y0);
        if y.last() == ' ' {
            assert(a + split_spaces(y) =~= (a + b).push(Seq::<char>::empty()));
        } else {
            assert(a + split_spaces(y) =~= (a + b).update(
                (a + b).len() - 1,
                (a + b).last().push(y.last()),
            ));
        }
    }
}

proof fn lemma_join_unpadded(ws: Seq<Seq<char>>)
    requires
        forall|k: int| 0 <= k < ws.len() ==> is_word(#[trigger] ws[k]),
    ensures
        forall|i: int|
            0 <= i < join_words(ws).len() ==> !is_padding(#[trigger] join_words(ws)[i]),
    decreases ws.len(),
{
    if ws.len() == 1 {
        assert(is_word(ws[0]));
    } else if ws.len() > 1 {
        let init = ws.drop_last();
        assert forall|k: int| 0 <= k < init.len() implies is_word(#[trigger] init[k]) by {
            assert(init[k] == ws[k]);
        }
        lemma_join_unpadded(init);
        let a = join_words(init);
        let b = ws.last();
        assert(is_word(ws[ws.len() - 1]));
        assert forall|i: int| 0 <= i < join_words(ws).len() implies !is_padding(
            #[trigger] join_words(ws)[i],
        ) by {
            if i < a.len() {
                assert(join_words(ws)[i] == a[i]);
            } else if i > a.len() {
                assert(join_words(ws)[i] == b[i - a.len() - 1]);
            }
        }
    }
}

proof fn lemma_split_join(ws: Seq<Seq<char>>)
    requires
        ws.len() >= 1,
        forall|k: int| 0 <= k < ws.len() ==> is_word(#[trigger] ws[k]),
    ensures
        split_spaces(join_words(ws)) == ws,
    decreases ws.len(),
{
    let b = ws.last();
    assert(is_word(ws[ws.len() - 1]));
    assert forall|i: int| 0 <= i < b.len() implies #[trigger] b[i] != ' ' by {}
    lemma_split_word(b);
    if ws.len() == 1 {
        assert(seq![b] =~= ws);
    } else {
        let init = ws.drop_last();
        assert forall|k: int| 0 <= k < init.len() implies is_word(#[trigger] init[k]) by {
            assert(init[k] == ws[k]);
        }
        lemma_split_join(init);
        lemma_split_concat(join_words(init), b);
        assert(init + seq![b] =~= ws);
    }
}

/// A line made of a tag, a non-empty command name and any arguments, joined
/// by single spaces, parses to exactly that tag, name and arguments; in
/// particular `<tag> <name>` parses with no arguments.
pub proof fn lemma_parse_joined(tag: Seq<char>, name: Seq<char>, args: Seq<Seq<char>>)
    requires
        is_word(tag),
        is_word(name),
        name.len() > 0,
        forall|k: int| 0 <= k < args.len() ==> is_word(#[trigger] args[k]),
    ensures
        parse_line(join_words(seq![tag, name] + args)) == Some(
            CommandView { tag, name, args },
        ),
        parse_line(tag + seq![' '] + name) == Some(
            CommandView { tag, name, args: Seq::<Seq<char>>::empty() },
        ),
{
    assert forall|args: Seq<Seq<char>>|
        (forall|k: int| 0 <= k < args.len() ==> is_word(#[trigger] args[k])) implies parse_line(
        join_words(seq![tag, name] + args),
    ) == Some(CommandView { tag, name, args }) by {
        let ws = seq![tag, name] + args;
        assert forall|k: int| 0 <= k < ws.len() implies is_word(#[trigger] ws[k]) by {
            if k >= 2 {
                assert(ws[k] == args[k - 2]);
            }
        }
        lemma_join_unpadded(ws);
        lemma_trim_unpadded(join_words(ws));
        lemma_split_join(ws);
        assert(ws.subrange(2, ws.len() as int) =~= args);
    }
    let pair = seq![tag, name] + Seq::<Seq<char>>::empty();
    assert(pair.drop_last() =~= seq![tag]);
    assert(join_words(seq![tag]) == tag);
    assert(join_words(pair) == tag + seq![' '] + name);
}

/// A line that holds no command is rejected: the empty line, a lone tag, and
/// a tag followed by a single space.
pub proof fn lemma_parse_rejects(tag: Seq<char>)
    requires
        is_word(tag),
    ensures
        parse_line(Seq::<char>::empty()) is None,
        parse_line(tag) is None,
        parse_line(tag + seq![' ']) is None,
{
    let e = Seq::<char>::empty();
    lemma_trim_unpadded(e);
    assert forall|i: int| 0 <= i < tag.len() implies #[trigger] tag[i] != ' ' by {}
    lemma_trim_unpadded(tag);
    lemma_split_word(tag);
    let t = tag + seq![' '];
    assert forall|i: int| 0 <= i < t.len() implies !is_padding(#[trigger] t[i]) by {
        if i < tag.len() {
            assert(t[i] == tag[i]);
        }
    }
    lemma_trim_unpadded(t);
    assert(t.drop_last() =~= tag);
    assert(t.last() == ' ');
}

} // verus!
