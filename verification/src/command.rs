use vstd::prelude::*;
use vstd::string::StringExecFns;
use crate::text::{split_by, split_on, views, push_char};

verus! {

/// The decimal digits of a natural number.
pub open spec fn digits(n: nat) -> Seq<char>
    decreases n,
{
    if n < 10 {
        seq![(('0' as u8) + n as u8) as char]
    } else {
        digits(n / 10).push(((('0' as u8) + (n % 10) as u8) as char))
    }
}

/// The decimal text of an integer, as `i32`'s `Display` writes it.
pub open spec fn decimal(n: int) -> Seq<char> {
    if n < 0 {
        seq!['-'] + digits((-n) as nat)
    } else {
        digits(n as nat)
    }
}

fn digits_exec(n: u64, out: &mut String)
    ensures
        final(out)@ == old(out)@ + digits(n as nat),
    decreases n,
{
    if n < 10 {
        let c = ((48u8 + n as u8) as char);
        push_char(out, c);
    } else {
        digits_exec(n / 10, out);
        let c = ((48u8 + (n % 10) as u8) as char);
        push_char(out, c);
        assert(old(out)@ + digits(n as nat) =~= old(out)@ + digits((n / 10) as nat) + seq![c]);
    }
}

/// The decimal text of `n`.
pub fn decimal_string(n: i32) -> (s: String)
    ensures
        s@ == decimal(n as int),
{
    let mut s = String::new();
    if n < 0 {
        push_char(&mut s, '-');
        let m: i64 = -(n as i64);
        digits_exec(m as u64, &mut s);
    } else {
        digits_exec(n as u64, &mut s);
    }
    s
}

/// The decimal text of an index.
pub fn index_string(n: usize) -> (s: String)
    ensures
        s@ == digits(n as nat),
{
    let mut s = String::new();
    digits_exec(n as u64, &mut s);
    s
}

/// A command line's program name and arguments, split at every single space.
pub fn command_parts(cmd: &str) -> (r: (String, Vec<String>))
    ensures
        r.0@ == split_on(cmd@, " "@)[0],
        views(r.1@) == split_on(cmd@, " "@).skip(1),
{
    proof { reveal_strlit(" "); }
    let pieces = split_by(cmd, " ");
    let name = pieces[0].clone();
    let mut args: Vec<String> = Vec::new();
    let mut i: usize = 1;
    while i < pieces.len()
        invariant
            1 <= i <= pieces@.len(),
            views(args@) == views(pieces@).subrange(1, i as int),
        decreases pieces@.len() - i,
    {
        let a = pieces[i].clone();
        let ghost before = views(args@);
        args.push(a);
        assert(views(args@) =~= before.push(pieces@[i as int]@));
        assert(views(args@) =~= views(pieces@).subrange(1, i + 1));
        i = i + 1;
    }
    assert(views(pieces@).subrange(1, pieces@.len() as int) =~= views(pieces@).skip(1));
    (name, args)
}

/// What a finished command yields: its output when it succeeded, else a
/// message with its exit code (`Unknown` when it has none) and its error output.
pub open spec fn command_result_of(success: bool, code: Option<i32>, stdout: Seq<char>, stderr: Seq<char>)
    -> Result<Seq<char>, Seq<char>> {
    if success {
        Ok(stdout)
    } else {
        let code_text = match code {
            Some(c) => decimal(c as int),
            None => "Unknown"@,
        };
        Err("Command error (Code: "@ + code_text + ") "@ + stderr)
    }
}

/// The outcome of a finished command, given whether it succeeded, its exit code
/// and its standard output and error as text.
pub fn command_result(success: bool, code: Option<i32>, stdout: String, stderr: &str) -> (r: Result<String, String>)
    ensures
        match r {
            Ok(s) => command_result_of(success, code, stdout@, stderr@) == Ok::<Seq<char>, Seq<char>>(s@),
            Err(e) => command_result_of(success, code, stdout@, stderr@) == Err::<Seq<char>, Seq<char>>(e@),
        },
{
    if success {
        return Ok(stdout);
    }
    let code_text = match code {
        Some(c) => decimal_string(c),
        None => "Unknown".to_owned(),
    };
    let mut msg = "Command error (Code: ".to_owned();
    msg.append(code_text.as_str());
    msg.append(") ");
    msg.append(stderr);
    Err(msg)
}

} // verus!
