//! Command lines: quoting arguments so that the program started with them gets the same ones
//! back, and the exit code of a program that was started with higher rights.
use crate::bytes;
use crate::text;
use vstd::prelude::*;

verus! {

/// `n` backslashes.
pub open spec fn backslashes(n: nat) -> Seq<char> {
    Seq::new(n, |i: int| '\\')
}

/// A character that separates arguments.
pub open spec fn is_blank(c: char) -> bool {
    c == ' ' || c == '\t'
}

/// An argument that would not survive on its own: an empty one, or one with a separator or a
/// quote in it.
pub open spec fn needs_quotes(s: Seq<char>) -> bool {
    s.len() == 0 || exists|i: int| 0 <= i < s.len() && (is_blank(#[trigger] s[i]) || s[i] == '"')
}

/// The text between the quotes, after `n` backslashes that are not written yet. Backslashes are
/// doubled before a quote, where one more makes the quote a plain character, and at the end.
pub open spec fn escaped(s: Seq<char>, n: nat) -> Seq<char>
    decreases s.len(),
{
    if s.len() == 0 {
        backslashes(2 * n)
    } else if s[0] == '\\' {
        escaped(s.drop_first(), n + 1)
    } else if s[0] == '"' {
        backslashes(2 * n + 1) + seq!['"'] + escaped(s.drop_first(), 0)
    } else {
        backslashes(n) + seq![s[0]] + escaped(s.drop_first(), 0)
    }
}

/// An argument as it stands on a command line.
pub open spec fn quoted(s: Seq<char>) -> Seq<char> {
    if needs_quotes(s) {
        seq!['"'] + escaped(s, 0) + seq!['"']
    } else {
        s
    }
}

/// The arguments of the rest of a command line, between two arguments.
pub open spec fn outside(t: Seq<char>) -> Seq<Seq<char>>
    decreases t.len(), 1int,
{
    if t.len() == 0 {
        Seq::empty()
    } else if is_blank(t[0]) {
        outside(t.drop_first())
    } else {
        inside(t, 0, false, Seq::empty())
    }
}

/// The arguments of the rest of a command line, inside an argument of which `cur` is read, after
/// `n` further backslashes, between quotes or not. Backslashes stand for themselves, but before a
/// quote two of them stand for one, and an odd one makes the quote a plain character.
pub open spec fn inside(t: Seq<char>, n: nat, in_quotes: bool, cur: Seq<char>) -> Seq<Seq<char>>
    decreases t.len(), 0int,
{
    if t.len() == 0 {
        seq![cur + backslashes(n)]
    } else if t[0] == '\\' {
        inside(t.drop_first(), n + 1, in_quotes, cur)
    } else if t[0] == '"' {
        if n % 2 == 0 {
            inside(t.drop_first(), 0, !in_quotes, cur + backslashes(n / 2))
        } else {
            inside(t.drop_first(), 0, in_quotes, cur + backslashes(n / 2) + seq!['"'])
        }
    } else if is_blank(t[0]) && !in_quotes {
        seq![cur + backslashes(n)] + outside(t.drop_first())
    } else {
        inside(t.drop_first(), 0, in_quotes, cur + backslashes(n) + seq![t[0]])
    }
}

/// Arguments as they stand on a command line.
pub open spec fn all_quoted(args: Seq<Seq<char>>) -> Seq<Seq<char>> {
    Seq::new(args.len(), |i: int| quoted(args[i]))
}

/// Appends `n` backslashes.
fn push_backslashes(out: &mut String, n: usize)
    ensures
        final(out)@ == old(out)@ + backslashes(n as nat),
{
    let mut i: usize = 0;
    while i < n
        invariant
            i <= n,
            out@ == old(out)@ + backslashes(i as nat),
        decreases n - i,
    {
        out.push('\\');
        i = i + 1;
        assert(out@ =~= old(out)@ + backslashes(i as nat));
    }
    assert(out@ =~= old(out)@ + backslashes(n as nat));
}

/// Quotes an argument for a command line.
pub fn quote_arg(arg: &str) -> (out: String)
    ensures
        out@ == quoted(arg@),
{
    let v: Vec<char> = text::chars_of(arg);
    let mut needs: bool = v.len() == 0;
    let mut i: usize = 0;
    while i < v.len()
        invariant
            i <= v@.len(),
            v@ == arg@,
            needs == (v@.len() == 0 || exists|k: int|
                0 <= k < i && (is_blank(#[trigger] v@[k]) || v@[k] == '"')),
        decreases v@.len() - i,
    {
        if v[i] == ' ' || v[i] == '\t' || v[i] == '"' {
            needs = true;
        }
        i = i + 1;
    }
    if !needs {
        return text::string_of(&v);
    }
    let mut out: String = String::new();
    out.push('"');
    let mut pending: usize = 0;
    let mut k: usize = 0;
    assert(v@.skip(0) =~= v@);
    while k < v.len()
        invariant
            k <= v@.len(),
            pending <= k,
            out@ + escaped(v@.skip(k as int), pending as nat) == seq!['"'] + escaped(v@, 0),
        decreases v@.len() - k,
    {
        let c: char = v[k];
        let ghost rest = v@.skip(k as int);
        assert(rest.drop_first() =~= v@.skip(k + 1));
        let ghost before = out@;
        let ghost p = pending as nat;
        if c == '\\' {
            pending = pending + 1;
        } else if c == '"' {
            push_backslashes(&mut out, pending);
            push_backslashes(&mut out, pending);
            out.push('\\');
            out.push('"');
            pending = 0;
        } else {
            push_backslashes(&mut out, pending);
            out.push(c);
            pending = 0;
        }
        assert(out@ + escaped(v@.skip(k + 1), pending as nat) =~= before + escaped(rest, p));
        k = k + 1;
    }
    assert(v@.skip(v@.len() as int) =~= Seq::<char>::empty());
    push_backslashes(&mut out, pending);
    push_backslashes(&mut out, pending);
    out.push('"');
    assert(out@ =~= quoted(arg@));
    out
}

/// The command line of a row of arguments.
pub fn command_line(args: &Vec<String>) -> (line: String)
    ensures
        line@ == text::joined(all_quoted(text::texts(args@)), seq![' ']),
{
    let mut parts: Vec<String> = Vec::new();
    let mut i: usize = 0;
    while i < args.len()
        invariant
            i <= args@.len(),
            parts@.len() == i,
            forall|k: int| 0 <= k < i ==> (#[trigger] parts@[k])@ == quoted(args@[k]@),
        decreases args@.len() - i,
    {
        parts.push(quote_arg(args[i].as_str()));
        i = i + 1;
    }
    proof {
        reveal_strlit(" ");
        assert(" "@ =~= seq![' ']);
        assert(text::texts(parts@) =~= all_quoted(text::texts(args@)));
    }
    text::join(&parts, " ")
}

/// The exit code to end with, from the child that was started with higher rights: the child's
/// own, or 1 where there is no child or its code cannot be read.
pub fn elevated_exit_code(handle_valid: bool, query_ok: bool, child_code: u32) -> (code: i32)
    ensures
        code == if handle_valid && query_ok {
            bytes::signed32(child_code)
        } else {
            1
        },
{
    if !handle_valid || !query_ok {
        return 1;
    }
    bytes::signed_of(child_code)
}

/// Backslashes at the front of a line are only counted.
proof fn lemma_count_backslashes(k: nat, t: Seq<char>, n: nat, q: bool, cur: Seq<char>)
    ensures
        inside(backslashes(k) + t, n, q, cur) == inside(t, n + k, q, cur),
    decreases k,
{
    let line = backslashes(k) + t;
    if k == 0 {
        assert(line =~= t);
    } else {
        assert(line[0] == '\\');
        assert(line.drop_first() =~= backslashes((k - 1) as nat) + t);
        lemma_count_backslashes((k - 1) as nat, t, n + 1, q, cur);
    }
}

/// Inside quotes, an escaped text and the closing quote are read as the text.
proof fn lemma_escaped_reads_back(s: Seq<char>, n: nat, tail: Seq<char>, cur: Seq<char>)
    ensures
        inside(escaped(s, n) + seq!['"'] + tail, 0, true, cur) == inside(
            tail,
            0,
            false,
            cur + backslashes(n) + s,
        ),
    decreases s.len(),
{
    let line = escaped(s, n) + seq!['"'] + tail;
    if s.len() == 0 {
        let t = seq!['"'] + tail;
        assert(line =~= backslashes(2 * n) + t);
        lemma_count_backslashes(2 * n, t, 0, true, cur);
        assert(t[0] == '"');
        assert(t.drop_first() =~= tail);
        assert((2 * n) % 2 == 0 && (2 * n) / 2 == n);
        assert(cur + backslashes(n) =~= cur + backslashes(n) + s);
    } else if s[0] == '\\' {
        lemma_escaped_reads_back(s.drop_first(), n + 1, tail, cur);
        assert(cur + backslashes(n + 1) + s.drop_first() =~= cur + backslashes(n) + s);
    } else if s[0] == '"' {
        let rest = escaped(s.drop_first(), 0) + seq!['"'] + tail;
        let t = seq!['"'] + rest;
        assert(line =~= backslashes(2 * n + 1) + t);
        lemma_count_backslashes(2 * n + 1, t, 0, true, cur);
        assert(t[0] == '"');
        assert(t.drop_first() =~= rest);
        assert((2 * n + 1) % 2 == 1 && (2 * n + 1) / 2 == n);
        let read = cur + backslashes(n) + seq!['"'];
        lemma_escaped_reads_back(s.drop_first(), 0, tail, read);
        assert(read + backslashes(0) + s.drop_first() =~= cur + backslashes(n) + s);
    } else {
        let rest = escaped(s.drop_first(), 0) + seq!['"'] + tail;
        let t = seq![s[0]] + rest;
        assert(line =~= backslashes(n) + t);
        lemma_count_backslashes(n, t, 0, true, cur);
        assert(t[0] == s[0]);
        assert(t.drop_first() =~= rest);
        let read = cur + backslashes(n) + seq![s[0]];
        lemma_escaped_reads_back(s.drop_first(), 0, tail, read);
        assert(read + backslashes(0) + s.drop_first() =~= cur + backslashes(n) + s);
    }
}

/// Nothing more, or a separator first.
pub open spec fn ends_argument(tail: Seq<char>) -> bool {
    tail.len() == 0 || is_blank(tail[0])
}

/// What follows the separator.
pub open spec fn following(tail: Seq<char>) -> Seq<Seq<char>> {
    if tail.len() == 0 {
        Seq::empty()
    } else {
        outside(tail.drop_first())
    }
}

/// An argument ends where a separator or the end of the line stands.
proof fn lemma_argument_ends(tail: Seq<char>, n: nat, cur: Seq<char>)
    requires
        ends_argument(tail),
    ensures
        inside(tail, n, false, cur) == seq![cur + backslashes(n)] + following(tail),
{
    if tail.len() == 0 {
        assert(seq![cur + backslashes(n)] + following(tail) =~= seq![cur + backslashes(n)]);
    }
}

/// A text without separators and quotes is read as itself.
proof fn lemma_plain_reads_back(s: Seq<char>, n: nat, tail: Seq<char>, cur: Seq<char>)
    requires
        ends_argument(tail),
        forall|i: int| 0 <= i < s.len() ==> !is_blank(#[trigger] s[i]) && s[i] != '"',
    ensures
        inside(s + tail, n, false, cur) == seq![cur + backslashes(n) + s] + following(tail),
    decreases s.len(),
{
    let line = s + tail;
    if s.len() == 0 {
        assert(line =~= tail);
        lemma_argument_ends(tail, n, cur);
        assert(cur + backslashes(n) + s =~= cur + backslashes(n));
    } else {
        assert(line[0] == s[0]);
        assert(line.drop_first() =~= s.drop_first() + tail);
        let rest = s.drop_first();
        assert forall|i: int| 0 <= i < rest.len() implies !is_blank(#[trigger] rest[i]) && rest[i]
            != '"' by {
            assert(rest[i] == s[i + 1]);
        }
        if s[0] == '\\' {
            lemma_plain_reads_back(rest, n + 1, tail, cur);
            assert(cur + backslashes(n + 1) + rest =~= cur + backslashes(n) + s);
        } else {
            let read = cur + backslashes(n) + seq![s[0]];
            lemma_plain_reads_back(rest, 0, tail, read);
            assert(read + backslashes(0) + rest =~= cur + backslashes(n) + s);
        }
    }
}

/// A quoted argument is read as the argument.
proof fn lemma_quoted_reads_back(s: Seq<char>, tail: Seq<char>)
    requires
        ends_argument(tail),
    ensures
        outside(quoted(s) + tail) == seq![s] + following(tail),
{
    let line = quoted(s) + tail;
    if needs_quotes(s) {
        let rest = escaped(s, 0) + seq!['"'] + tail;
        assert(line =~= seq!['"'] + rest);
        assert(line[0] == '"');
        assert(line.drop_first() =~= rest);
        let none = Seq::<char>::empty();
        assert(none + backslashes(0) =~= none);
        assert(inside(line, 0, false, none) == inside(rest, 0, true, none));
        lemma_escaped_reads_back(s, 0, tail, none);
        assert(none + backslashes(0) + s =~= s);
        lemma_argument_ends(tail, 0, s);
        assert(s + backslashes(0) =~= s);
    } else {
        assert(line[0] == s[0]);
        assert(!is_blank(s[0]));
        lemma_plain_reads_back(s, 0, tail, Seq::empty());
        assert(Seq::<char>::empty() + backslashes(0) + s =~= s);
    }
}

proof fn lemma_line_reads_back(args: Seq<Seq<char>>, tail: Seq<char>)
    requires
        ends_argument(tail),
        args.len() > 0,
    ensures
        outside(text::joined(all_quoted(args), seq![' ']) + tail) == args + following(tail),
    decreases args.len(),
{
    let parts = all_quoted(args);
    let sep = seq![' '];
    if args.len() == 1 {
        assert(text::joined(parts, sep) == quoted(args[0]));
        lemma_quoted_reads_back(args[0], tail);
        assert(seq![args[0]] =~= args);
    } else {
        let front = args.drop_last();
        let last = args.last();
        assert(parts.drop_last() =~= all_quoted(front));
        assert(parts.last() == quoted(last));
        let later = sep + (quoted(last) + tail);
        assert(text::joined(parts, sep) + tail =~= text::joined(all_quoted(front), sep) + later);
        assert(later[0] == ' ');
        assert(later.drop_first() =~= quoted(last) + tail);
        lemma_line_reads_back(front, later);
        lemma_quoted_reads_back(last, tail);
        assert(front + (seq![last] + following(tail)) =~= args + following(tail));
    }
}

/// A program that is started with the command line of some arguments gets exactly those
/// arguments: none is broken up, joined or changed, whatever it holds.
pub proof fn law_arguments_survive_the_command_line(args: Seq<Seq<char>>)
    ensures
        outside(text::joined(all_quoted(args), seq![' '])) == args,
{
    let line = text::joined(all_quoted(args), seq![' ']);
    if args.len() == 0 {
        assert(line =~= Seq::<char>::empty());
        assert(args =~= Seq::<Seq<char>>::empty());
    } else {
        lemma_line_reads_back(args, Seq::empty());
        assert(line + Seq::<char>::empty() =~= line);
        assert(args + Seq::<Seq<char>>::empty() =~= args);
    }
}

/// An argument is put between quotes exactly if it is empty or has a blank, a tabulator or a quote
/// in it; any other stands as it is.
pub proof fn law_only_what_needs_it_is_quoted(s: Seq<char>)
    ensures
        s.len() > 0 && !s.contains(' ') && !s.contains('\t') && !s.contains('"') ==> quoted(s) == s,
        s.len() == 0 || s.contains(' ') || s.contains('\t') || s.contains('"') ==> {
            &&& quoted(s).len() >= 2
            &&& quoted(s)[0] == '"'
            &&& quoted(s).last() == '"'
        },
{
    if s.contains(' ') {
        let i = choose|i: int| 0 <= i < s.len() && s[i] == ' ';
        assert(is_blank(s[i]));
    }
    if s.contains('\t') {
        let i = choose|i: int| 0 <= i < s.len() && s[i] == '\t';
        assert(is_blank(s[i]));
    }
    if s.contains('"') {
        let i = choose|i: int| 0 <= i < s.len() && s[i] == '"';
        assert(s[i] == '"');
    }
}

} // verus!
