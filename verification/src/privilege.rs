//! Re-executing `netm guest` under `sudo` when the current process lacks
//! root privileges.

use crate::platform::{self, requires_root, Os};
use crate::settings::CONFIG_ENV;
use crate::text;
use vstd::prelude::*;
use vstd::string::StringExecFns;

verus! {

/// Whether the guest needs elevation right now.
pub fn guest_needs_elevation(os: Os, is_root: bool) -> (r: bool)
    ensures
        r == !is_root,
{
    requires_root(os) && !is_root
}

// Quoting.

/// A character that means itself to a shell.
pub open spec fn plain(c: char) -> bool {
    ||| 'a' <= c <= 'z'
    ||| 'A' <= c <= 'Z'
    ||| '0' <= c <= '9'
    ||| c == '-' || c == '_' || c == '.' || c == '/' || c == ':' || c == '=' || c == '[' || c == ']'
        || c == '%'
}

/// Only characters that mean themselves, and at least one.
pub open spec fn all_plain(s: Seq<char>) -> bool {
    s.len() > 0 && forall|i: int| 0 <= i < s.len() ==> plain(#[trigger] s[i])
}

/// What stands for a character between single quotes.
pub open spec fn escaped_char(c: char) -> Seq<char> {
    if c == '\'' {
        seq!['\'', '\\', '\'', '\'']
    } else {
        seq![c]
    }
}

/// What stands for a text between single quotes.
pub open spec fn escaped(s: Seq<char>) -> Seq<char>
    decreases s.len(),
{
    if s.len() == 0 {
        Seq::empty()
    } else {
        escaped_char(s[0]) + escaped(s.skip(1))
    }
}

/// A text as one word for a shell.
pub open spec fn quoted(s: Seq<char>) -> Seq<char> {
    if all_plain(s) {
        s
    } else {
        seq!['\''] + escaped(s) + seq!['\'']
    }
}

fn is_plain(c: char) -> (r: bool)
    ensures
        r == plain(c),
{
    ('a' <= c && c <= 'z') || ('A' <= c && c <= 'Z') || ('0' <= c && c <= '9') || c == '-' || c
        == '_' || c == '.' || c == '/' || c == ':' || c == '=' || c == '[' || c == ']' || c == '%'
}

/// Minimal POSIX-shell quoting for display purposes.
pub fn shell_quote(s: &str) -> (r: String)
    ensures
        r@ == quoted(s@),
{
    let c = text::chars(s);
    let mut simple: bool = c.len() > 0;
    let mut i: usize = 0;
    while i < c.len()
        invariant
            i <= c@.len(),
            simple <==> c@.len() > 0 && forall|k: int| 0 <= k < i ==> plain(#[trigger] c@[k]),
        decreases c@.len() - i,
    {
        if !is_plain(c[i]) {
            simple = false;
        }
        i = i + 1;
    }
    if simple {
        return s.to_owned();
    }
    let mut out = String::new();
    out.push('\'');
    let ghost open = seq!['\''];
    assert(out@ =~= open);
    assert(c@.skip(0) =~= c@);
    assert(out@ + escaped(c@.skip(0)) =~= open + escaped(c@));
    i = 0;
    while i < c.len()
        invariant
            i <= c@.len(),
            out@ + escaped(c@.skip(i as int)) == open + escaped(c@),
        decreases c@.len() - i,
    {
        let ghost rest = c@.skip(i as int);
        let ghost before = out@;
        if c[i] == '\'' {
            out.push('\'');
            out.push('\\');
            out.push('\'');
            out.push('\'');
        } else {
            out.push(c[i]);
        }
        proof {
            assert(rest[0] == c@[i as int]);
            assert(rest.skip(1) =~= c@.skip(i + 1));
            assert(out@ =~= before + escaped_char(rest[0]));
            assert(out@ + escaped(rest.skip(1)) =~= before + (escaped_char(rest[0]) + escaped(
                rest.skip(1),
            )));
        }
        i = i + 1;
    }
    assert(c@.skip(i as int) =~= Seq::<char>::empty());
    assert(out@ =~= open + escaped(c@));
    out.push('\'');
    assert(out@ =~= open + escaped(c@) + seq!['\'']);
    out
}

/// The word that a shell reads, from inside or outside single quotes, out of
/// characters that mean themselves, quoted characters and escaped ones.
pub open spec fn shell_word(s: Seq<char>, inside: bool) -> Option<Seq<char>>
    decreases s.len(),
{
    if s.len() == 0 {
        if inside {
            None
        } else {
            Some(Seq::empty())
        }
    } else if s[0] == '\'' {
        shell_word(s.skip(1), !inside)
    } else if inside || plain(s[0]) {
        match shell_word(s.skip(1), inside) {
            Some(w) => Some(seq![s[0]] + w),
            None => None,
        }
    } else if s[0] == '\\' && s.len() > 1 {
        match shell_word(s.skip(2), inside) {
            Some(w) => Some(seq![s[1]] + w),
            None => None,
        }
    } else {
        None
    }
}

proof fn plain_words_are_read_back(s: Seq<char>)
    requires
        forall|i: int| 0 <= i < s.len() ==> plain(#[trigger] s[i]),
    ensures
        shell_word(s, false) == Some(s),
    decreases s.len(),
{
    if s.len() > 0 {
        assert(plain(s[0]));
        plain_words_are_read_back(s.skip(1));
        assert(seq![s[0]] + s.skip(1) =~= s);
    }
}

proof fn quoted_words_are_read_back(s: Seq<char>)
    ensures
        shell_word(escaped(s) + seq!['\''], true) == Some(s),
    decreases s.len(),
{
    let end = seq!['\''];
    if s.len() == 0 {
        let t = escaped(s) + end;
        assert(t =~= end);
        assert(t.skip(1) =~= Seq::<char>::empty());
        assert(shell_word(t.skip(1), false) == Some(Seq::<char>::empty()));
        assert(s =~= Seq::<char>::empty());
    } else {
        let tail = escaped(s.skip(1)) + end;
        quoted_words_are_read_back(s.skip(1));
        let t = escaped(s) + end;
        assert(seq![s[0]] + s.skip(1) =~= s);
        if s[0] == '\'' {
            assert(t =~= seq!['\'', '\\', '\'', '\''] + tail);
            let t1 = t.skip(1);
            assert(t1 =~= seq!['\\', '\'', '\''] + tail);
            let t3 = t1.skip(2);
            assert(t3 =~= seq!['\''] + tail);
            assert(t3.skip(1) =~= tail);
            assert(shell_word(t3, false) == Some(s.skip(1)));
            assert(shell_word(t1, false) == Some(s));
        } else {
            assert(t =~= seq![s[0]] + tail);
            assert(t.skip(1) =~= tail);
        }
    }
}

/// A shell reads a quoted text back as the text.
pub proof fn a_quoted_word_is_read_back(s: Seq<char>)
    ensures
        shell_word(quoted(s), false) == Some(s),
{
    if all_plain(s) {
        plain_words_are_read_back(s);
    } else {
        quoted_words_are_read_back(s);
        assert(quoted(s).skip(1) =~= escaped(s) + seq!['\'']);
    }
}

// Commands.

/// Quoted words with spaces between them.
pub open spec fn quoted_words(args: Seq<Seq<char>>) -> Seq<char>
    decreases args.len(),
{
    if args.len() == 0 {
        Seq::empty()
    } else if args.len() == 1 {
        quoted(args[0])
    } else {
        quoted_words(args.drop_last()) + " "@ + quoted(args.last())
    }
}

/// The name that the program goes by in the hint.
pub open spec fn exe_name(exe: Option<Seq<char>>) -> Seq<char> {
    match exe {
        Some(e) => e,
        None => "netm"@,
    }
}

/// Human readable instructions for running the guest manually; `exe` is where
/// the running program lies, if that is known.
pub fn manual_hint(config_path: &str, exe: Option<&str>, args: &Vec<String>) -> (r: String)
    ensures
        r@ == "请手动以管理员权限运行：\n  sudo -E env "@ + CONFIG_ENV@ + "="@ + quoted(
            config_path@,
        ) + " "@ + quoted(exe_name(platform::str_view(exe))) + " "@ + quoted_words(
            platform::strings_view(args@),
        ),
{
    let mut s = "请手动以管理员权限运行：\n  sudo -E env ".to_owned();
    s.append(CONFIG_ENV);
    s.append("=");
    s.append(shell_quote(config_path).as_str());
    s.append(" ");
    let exe: &str = match exe {
        Some(e) => e,
        None => "netm",
    };
    s.append(shell_quote(exe).as_str());
    s.append(" ");
    let ghost head = s@;
    let ghost all = platform::strings_view(args@);
    let mut i: usize = 0;
    assert(all.take(0) =~= Seq::<Seq<char>>::empty());
    assert(s@ =~= head + quoted_words(all.take(0)));
    while i < args.len()
        invariant
            all == platform::strings_view(args@),
            i <= args@.len(),
            s@ == head + quoted_words(all.take(i as int)),
        decreases args@.len() - i,
    {
        let ghost before = s@;
        let word = shell_quote(args[i].as_str());
        if i > 0 {
            s.append(" ");
        }
        s.append(word.as_str());
        proof {
            let now = all.take(i + 1);
            assert(now.drop_last() =~= all.take(i as int));
            assert(now.last() == args@[i as int]@);
            if i == 0 {
                assert(now[0] == now.last());
                assert(s@ =~= head + quoted_words(now));
            } else {
                assert(s@ =~= head + (quoted_words(now.drop_last()) + " "@ + quoted(now.last())));
            }
        }
        i = i + 1;
    }
    assert(all.take(i as int) =~= all);
    s
}

/// Build the `sudo` command line: `sudo -E env NETM_CONFIG=<path> <exe> <args>`.
/// `exe` is where the running program lies, or why that is not known.
pub fn sudo_command(config_path: &str, exe: Result<&str, &str>, args: &Vec<String>) -> (r: Result<
    Vec<String>,
    String,
>)
    ensures
        match (r, exe) {
            (Ok(c), Ok(e)) => platform::strings_view(c@) == seq![
                "sudo"@,
                "-E"@,
                "env"@,
                CONFIG_ENV@ + "="@ + config_path@,
                e@,
            ] + platform::strings_view(args@),
            (Err(t), Err(e)) => t@ == "cannot locate own executable: "@ + e@,
            _ => false,
        },
{
    let exe: &str = match exe {
        Ok(e) => e,
        Err(e) => {
            return Err(text::cat2("cannot locate own executable: ", e));
        },
    };
    let mut c: Vec<String> = Vec::new();
    c.push("sudo".to_owned());
    c.push("-E".to_owned());
    c.push("env".to_owned());
    c.push(text::cat3(CONFIG_ENV, "=", config_path));
    c.push(exe.to_owned());
    let ghost head = seq![
        "sudo"@,
        "-E"@,
        "env"@,
        CONFIG_ENV@ + "="@ + config_path@,
        exe@,
    ];
    let ghost all = platform::strings_view(args@);
    assert(platform::strings_view(c@) =~= head + all.take(0));
    let mut i: usize = 0;
    while i < args.len()
        invariant
            all == platform::strings_view(args@),
            i <= args@.len(),
            platform::strings_view(c@) == head + all.take(i as int),
        decreases args@.len() - i,
    {
        let ghost before = c@;
        c.push(args[i].clone());
        proof {
            assert(platform::strings_view(c@) =~= platform::strings_view(before).push(
                args@[i as int]@,
            ));
            assert(head + all.take(i + 1) =~= (head + all.take(i as int)).push(
                args@[i as int]@,
            ));
        }
        i = i + 1;
    }
    assert(all.take(i as int) =~= all);
    Ok(c)
}

/// A word of plain characters needs no quotes; any other, and the empty one, is
/// put in quotes.
pub proof fn quotes_are_where_they_are_needed(s: Seq<char>)
    ensures
        s.len() > 0 && (forall|i: int| 0 <= i < s.len() ==> plain(#[trigger] s[i])) ==> quoted(s)
            == s,
        s.len() == 0 || (exists|i: int| 0 <= i < s.len() && !plain(#[trigger] s[i])) ==> quoted(
            s,
        )[0] == '\'' && quoted(s).last() == '\'' && quoted(s).len() >= 2,
{
}

/// Words are quoted one by one, with a space between them.
pub proof fn words_are_quoted_one_by_one(args: Seq<Seq<char>>, w: Seq<char>)
    ensures
        quoted_words(Seq::empty()).len() == 0,
        quoted_words(seq![w]) == quoted(w),
        args.len() > 0 ==> quoted_words(args.push(w)) == quoted_words(args) + " "@ + quoted(w),
{
    assert(args.push(w).drop_last() =~= args);
}

/// No character that means something to a shell is plain.
pub proof fn what_a_shell_reads_is_not_plain(c: char)
    ensures
        plain(c) ==> '!' <= c <= '~',
        c == ' ' || c == '\'' || c == '"' || c == '$' || c == '`' || c == '\\' || c == ';' || c == '&'
            || c == '|' || c == '<' || c == '>' || c == '(' || c == ')' || c == '*' || c == '?' || c
            == '#' || c == '~' || c == '!' || c == '{' || c == '}' ==> !plain(c),
{
}

/// The program is named as it was run.
pub proof fn the_program_is_named(exe: Option<Seq<char>>)
    ensures
        exe matches Some(e) ==> exe_name(exe) == e,
        exe is None ==> exe_name(exe) == "netm"@,
{
}

} // verus!
