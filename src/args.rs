//! Rendering of typed command arguments into wire tokens, and of a whole
//! command line.

use vstd::prelude::*;
use crate::text::{chars_of, push_char};

verus! {

/// A value that renders as zero or more argument tokens of a command.
pub trait ToArguments {
    /// The tokens that this value renders as, in order.
    spec fn arg_tokens(&self) -> Seq<Seq<char>>;

    /// Appends this value's tokens to `out`, in order, one token per entry.
    fn to_arguments(&self, out: &mut Vec<String>)
        ensures
            final(out).deep_view() == old(out).deep_view() + self.arg_tokens(),
    ;
}

/// The decimal digit for `d`.
pub open spec fn digit_char(d: int) -> char {
    (d + '0' as int) as char
}

/// The decimal text of `n`, without leading zeros.
pub open spec fn decimal(n: nat) -> Seq<char>
    decreases n,
{
    if n < 10 {
        seq![digit_char(n as int)]
    } else {
        decimal(n / 10).push(digit_char((n % 10) as int))
    }
}

/// The decimal text of the signed `n`.
pub open spec fn signed_decimal(n: int) -> Seq<char> {
    if n < 0 {
        seq!['-'] + decimal((-n) as nat)
    } else {
        decimal(n as nat)
    }
}

fn push_decimal(s: &mut String, n: u64)
    ensures
        final(s)@ == old(s)@ + decimal(n as nat),
    decreases n,
{
    if n >= 10 {
        push_decimal(s, n / 10);
    }
    let d = (n % 10) as u32;
    let c = char_of_digit(d);
    push_char(s, c);
    assert(n < 10 ==> n % 10 == n);
}

fn char_of_digit(d: u32) -> (c: char)
    requires
        d < 10,
    ensures
        c == digit_char(d as int),
{
    let c = match d {
        0 => '0',
        1 => '1',
        2 => '2',
        3 => '3',
        4 => '4',
        5 => '5',
        6 => '6',
        7 => '7',
        8 => '8',
        _ => '9',
    };
    c
}

/// The decimal text of an unsigned number.
pub fn render_unsigned(n: u64) -> (r: String)
    ensures
        r@ == decimal(n as nat),
{
    let mut s = String::new();
    push_decimal(&mut s, n);
    assert(Seq::<char>::empty() + decimal(n as nat) == decimal(n as nat));
    s
}

/// The decimal text of a signed number.
pub fn render_signed(n: i64) -> (r: String)
    ensures
        r@ == signed_decimal(n as int),
{
    let mut s = String::new();
    if n < 0 {
        push_char(&mut s, '-');
        let m: u64 = if n == i64::MIN {
            9223372036854775808u64
        } else {
            (-n) as u64
        };
        push_decimal(&mut s, m);
    } else {
        push_decimal(&mut s, n as u64);
    }
    s
}

/// How one character is written inside double quotes.
pub open spec fn escaped_char(c: char) -> Seq<char> {
    if c == '\\' {
        seq!['\\', '\\']
    } else if c == '"' {
        seq!['\\', '"']
    } else {
        seq![c]
    }
}

/// `s` with every backslash and double quote escaped by a backslash.
pub open spec fn escaped(s: Seq<char>) -> Seq<char>
    decreases s.len(),
{
    if s.len() == 0 {
        Seq::empty()
    } else {
        escaped(s.drop_last()) + escaped_char(s.last())
    }
}

/// `s` escaped and wrapped in double quotes.
pub open spec fn quoted(s: Seq<char>) -> Seq<char> {
    seq!['"'] + escaped(s) + seq!['"']
}

/// A text argument written in double quotes, with backslashes and double
/// quotes escaped, so that spaces and separators inside it are safe.
pub struct Quoted<'a>(pub &'a str);

impl<'a> Quoted<'a> {
    /// The quoted form of the text.
    pub fn to_quoted_string(&self) -> (r: String)
        ensures
            r@ == quoted(self.0@),
    {
        let cs = chars_of(self.0);
        let mut s = String::new();
        push_char(&mut s, '"');
        let mut i: usize = 0;
        while i < cs.len()
            invariant
                i <= cs.len(),
                cs@ == self.0@,
                s@ == seq!['"'] + escaped(cs@.take(i as int)),
            decreases cs.len() - i,
        {
            let c = cs[i];
            assert(cs@.take(i + 1).drop_last() == cs@.take(i as int));
            if c == '\\' {
                push_char(&mut s, '\\');
                push_char(&mut s, '\\');
            } else if c == '"' {
                push_char(&mut s, '\\');
                push_char(&mut s, '"');
            } else {
                push_char(&mut s, c);
            }
            i = i + 1;
        }
        assert(cs@.take(i as int) == cs@);
        push_char(&mut s, '"');
        s
    }
}

impl<'a> ToArguments for Quoted<'a> {
    open spec fn arg_tokens(&self) -> Seq<Seq<char>> {
        seq![quoted(self.0@)]
    }

    fn to_arguments(&self, out: &mut Vec<String>) {
        let t = self.to_quoted_string();
        out.push(t);
        assert(out.deep_view() == old(out).deep_view() + self.arg_tokens());
    }
}


impl ToArguments for () {
    open spec fn arg_tokens(&self) -> Seq<Seq<char>> {
        Seq::empty()
    }

    fn to_arguments(&self, out: &mut Vec<String>) {
        assert(out.deep_view() == out.deep_view() + Seq::<Seq<char>>::empty());
    }
}

impl<'a> ToArguments for &'a str {
    open spec fn arg_tokens(&self) -> Seq<Seq<char>> {
        seq![(*self)@]
    }

    fn to_arguments(&self, out: &mut Vec<String>) {
        out.push((*self).to_owned());
        assert(out.deep_view() == old(out).deep_view() + self.arg_tokens());
    }
}

impl ToArguments for String {
    open spec fn arg_tokens(&self) -> Seq<Seq<char>> {
        seq![self@]
    }

    fn to_arguments(&self, out: &mut Vec<String>) {
        out.push(self.clone());
        assert(out.deep_view() == old(out).deep_view() + self.arg_tokens());
    }
}

impl ToArguments for u32 {
    open spec fn arg_tokens(&self) -> Seq<Seq<char>> {
        seq![decimal(*self as nat)]
    }

    fn to_arguments(&self, out: &mut Vec<String>) {
        out.push(render_unsigned(*self as u64));
        assert(out.deep_view() == old(out).deep_view() + self.arg_tokens());
    }
}

impl ToArguments for u8 {
    open spec fn arg_tokens(&self) -> Seq<Seq<char>> {
        seq![decimal(*self as nat)]
    }

    fn to_arguments(&self, out: &mut Vec<String>) {
        out.push(render_unsigned(*self as u64));
        assert(out.deep_view() == old(out).deep_view() + self.arg_tokens());
    }
}

impl ToArguments for usize {
    open spec fn arg_tokens(&self) -> Seq<Seq<char>> {
        seq![decimal(*self as nat)]
    }

    fn to_arguments(&self, out: &mut Vec<String>) {
        out.push(render_unsigned(*self as u64));
        assert(out.deep_view() == old(out).deep_view() + self.arg_tokens());
    }
}

impl ToArguments for i8 {
    open spec fn arg_tokens(&self) -> Seq<Seq<char>> {
        seq![signed_decimal(*self as int)]
    }

    fn to_arguments(&self, out: &mut Vec<String>) {
        out.push(render_signed(*self as i64));
        assert(out.deep_view() == old(out).deep_view() + self.arg_tokens());
    }
}

impl<A: ToArguments> ToArguments for (A,) {
    open spec fn arg_tokens(&self) -> Seq<Seq<char>> {
        self.0.arg_tokens()
    }

    fn to_arguments(&self, out: &mut Vec<String>) {
        self.0.to_arguments(out);
    }
}

impl<A: ToArguments, B: ToArguments> ToArguments for (A, B) {
    open spec fn arg_tokens(&self) -> Seq<Seq<char>> {
        self.0.arg_tokens() + self.1.arg_tokens()
    }

    fn to_arguments(&self, out: &mut Vec<String>) {
        self.0.to_arguments(out);
        self.1.to_arguments(out);
        assert(out.deep_view() == old(out).deep_view() + self.arg_tokens());
    }
}

impl<A: ToArguments, B: ToArguments, C: ToArguments> ToArguments for (A, B, C) {
    open spec fn arg_tokens(&self) -> Seq<Seq<char>> {
        self.0.arg_tokens() + self.1.arg_tokens() + self.2.arg_tokens()
    }

    fn to_arguments(&self, out: &mut Vec<String>) {
        self.0.to_arguments(out);
        self.1.to_arguments(out);
        self.2.to_arguments(out);
        assert(out.deep_view() == old(out).deep_view() + self.arg_tokens());
    }
}

/// The tokens of every element of `s`, in order.
pub open spec fn all_tokens<T: ToArguments>(s: Seq<T>) -> Seq<Seq<char>>
    decreases s.len(),
{
    if s.len() == 0 {
        Seq::empty()
    } else {
        all_tokens(s.drop_last()) + s.last().arg_tokens()
    }
}

impl<'a, T: ToArguments> ToArguments for &'a [T] {
    open spec fn arg_tokens(&self) -> Seq<Seq<char>> {
        all_tokens((*self)@)
    }

    fn to_arguments(&self, out: &mut Vec<String>) {
        let mut i: usize = 0;
        while i < self.len()
            invariant
                i <= self@.len(),
                out.deep_view() == old(out).deep_view() + all_tokens(self@.take(i as int)),
            decreases self@.len() - i,
        {
            assert(self@.take(i + 1).drop_last() == self@.take(i as int));
            self[i].to_arguments(out);
            i = i + 1;
        }
        assert(self@.take(i as int) == self@);
    }
}

/// The arguments part of a command line: each token quoted and preceded
/// by a space.
pub open spec fn args_text(tokens: Seq<Seq<char>>) -> Seq<char>
    decreases tokens.len(),
{
    if tokens.len() == 0 {
        Seq::empty()
    } else {
        args_text(tokens.drop_last()) + seq![' '] + quoted(tokens.last())
    }
}

/// The text of the command `name` with the argument tokens `tokens`,
/// ended by a line break.
pub open spec fn command_text(name: Seq<char>, tokens: Seq<Seq<char>>) -> Seq<char> {
    name + args_text(tokens) + seq!['\n']
}

/// The line that sends the command `name` with the arguments `args`.
pub fn command_line<A: ToArguments>(name: &str, args: &A) -> (r: String)
    ensures
        r@ == command_text(name@, args.arg_tokens()),
{
    let mut tokens: Vec<String> = Vec::new();
    args.to_arguments(&mut tokens);
    assert(tokens.deep_view() == args.arg_tokens());
    let mut s = String::from_str(name);
    assert(tokens.deep_view().take(0) == Seq::<Seq<char>>::empty());
    assert(name@ + Seq::<char>::empty() == name@);
    let mut i: usize = 0;
    while i < tokens.len()
        invariant
            i <= tokens.len(),
            tokens.deep_view() == args.arg_tokens(),
            s@ == name@ + args_text(tokens.deep_view().take(i as int)),
        decreases tokens.len() - i,
    {
        let ghost pre = tokens.deep_view().take(i as int);
        assert(tokens.deep_view().take(i + 1).drop_last() == pre);
        assert(tokens.deep_view().take(i + 1).last() == tokens[i as int]@);
        push_char(&mut s, ' ');
        let q = Quoted(tokens[i].as_str()).to_quoted_string();
        s.append(q.as_str());
        i = i + 1;
    }
    assert(tokens.deep_view().take(i as int) == tokens.deep_view());
    push_char(&mut s, '\n');
    s
}

} // verus!
