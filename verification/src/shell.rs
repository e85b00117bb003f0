//! Commands for GNOME custom shortcuts: quoting the path of the executable
//! for a shell, and choosing which path to show.
use vstd::prelude::*;

use crate::numfmt::{decimal_of, push_digits};
use crate::text::{append_str, chars_of, string_of};

verus! {

/// Characters that need no quoting: ASCII letters and digits and `/ . _ - :`.
pub open spec fn is_shell_safe(c: char) -> bool {
    ('a' <= c && c <= 'z') || ('A' <= c && c <= 'Z') || ('0' <= c && c <= '9') || c == '/' || c
        == '.' || c == '_' || c == '-' || c == ':'
}

fn char_is_shell_safe(c: char) -> (b: bool)
    ensures
        b == is_shell_safe(c),
{
    ('a' <= c && c <= 'z') || ('A' <= c && c <= 'Z') || ('0' <= c && c <= '9') || c == '/' || c
        == '.' || c == '_' || c == '-' || c == ':'
}

/// `s` with each `'` replaced by `'"'"'`.
pub open spec fn escape_quotes(s: Seq<char>) -> Seq<char>
    decreases s.len(),
{
    if s.len() == 0 {
        seq![]
    } else {
        escape_quotes(s.drop_last()) + if s.last() == '\'' {
            seq!['\'', '"', '\'', '"', '\'']
        } else {
            seq![s.last()]
        }
    }
}

/// The text that `shell_quote` gives: `''` for the empty text, the text
/// itself when every character is safe, else the text in single quotes with
/// its own single quotes escaped.
pub open spec fn shell_quoted(s: Seq<char>) -> Seq<char> {
    if s.len() == 0 {
        seq!['\'', '\'']
    } else if forall|i: int| 0 <= i < s.len() ==> is_shell_safe(#[trigger] s[i]) {
        s
    } else {
        seq!['\''] + escape_quotes(s) + seq!['\'']
    }
}

/// One character read by a POSIX shell within a word: the state is the
/// text read so far and where the reader is (0 unquoted, 1 inside single
/// quotes, 2 inside double quotes, -1 after a character that would end or
/// change the word: an unsafe unquoted one, or a dollar sign, backquote or
/// backslash inside double quotes).
pub open spec fn shell_step(st: (Seq<char>, int), c: char) -> (Seq<char>, int) {
    let (v, m) = st;
    if m == 0 {
        if c == '\'' {
            (v, 1)
        } else if c == '"' {
            (v, 2)
        } else if is_shell_safe(c) {
            (v.push(c), 0)
        } else {
            (v, -1)
        }
    } else if m == 1 {
        if c == '\'' {
            (v, 0)
        } else {
            (v.push(c), 1)
        }
    } else if m == 2 {
        if c == '"' {
            (v, 0)
        } else if c == '$' || c == '`' || c == '\\' {
            (v, -1)
        } else {
            (v.push(c), 2)
        }
    } else {
        (v, m)
    }
}

/// The state after a POSIX shell has read `s` (see `shell_step`).
pub open spec fn shell_read(s: Seq<char>) -> (Seq<char>, int)
    decreases s.len(),
{
    if s.len() == 0 {
        (seq![], 0)
    } else {
        shell_step(shell_read(s.drop_last()), s.last())
    }
}

/// The one word that a POSIX shell reads from `s`, if `s` is read as a
/// single word with every quote closed.
pub open spec fn shell_word(s: Seq<char>) -> Option<Seq<char>> {
    if shell_read(s).1 == 0 {
        Some(shell_read(s).0)
    } else {
        None
    }
}

proof fn lemma_shell_read_push(x: Seq<char>, c: char)
    ensures
        shell_read(x.push(c)) == shell_step(shell_read(x), c),
{
    assert(x.push(c).drop_last() =~= x);
}

proof fn lemma_shell_read_safe(s: Seq<char>)
    requires
        forall|i: int| 0 <= i < s.len() ==> is_shell_safe(#[trigger] s[i]),
    ensures
        shell_read(s) == (s, 0int),
    decreases s.len(),
{
    if s.len() > 0 {
        let init = s.drop_last();
        assert forall|i: int| 0 <= i < init.len() implies is_shell_safe(#[trigger] init[i]) by {
            assert(init[i] == s[i]);
        }
        lemma_shell_read_safe(init);
        assert(is_shell_safe(s[s.len() - 1]));
        assert(init.push(s.last()) =~= s);
    }
}

proof fn lemma_shell_read_quoted(t: Seq<char>)
    ensures
        shell_read(seq!['\''] + escape_quotes(t)) == (t, 1int),
    decreases t.len(),
{
    if t.len() == 0 {
        assert(seq!['\''] + escape_quotes(t) =~= seq![].push('\''));
        lemma_shell_read_push(seq![], '\'');
        assert(t =~= seq![]);
    } else {
        let init = t.drop_last();
        let c = t.last();
        lemma_shell_read_quoted(init);
        let x = seq!['\''] + escape_quotes(init);
        if c == '\'' {
            let x1 = x.push('\'');
            let x2 = x1.push('"');
            let x3 = x2.push('\'');
            let x4 = x3.push('"');
            let x5 = x4.push('\'');
            lemma_shell_read_push(x, '\'');
            lemma_shell_read_push(x1, '"');
            lemma_shell_read_push(x2, '\'');
            lemma_shell_read_push(x3, '"');
            lemma_shell_read_push(x4, '\'');
            assert(seq!['\''] + escape_quotes(t) =~= x5);
            assert(init.push('\'') =~= t);
        } else {
            lemma_shell_read_push(x, c);
            assert(seq!['\''] + escape_quotes(t) =~= x.push(c));
            assert(init.push(c) =~= t);
        }
    }
}

/// A POSIX shell reads the quoted text back as exactly one word, the text
/// itself: quoting never splits, expands or changes a path.
pub proof fn lemma_shell_quote_reads_back(s: Seq<char>)
    ensures
        shell_word(shell_quoted(s)) == Some(s),
{
    if s.len() == 0 {
        lemma_shell_read_push(seq![], '\'');
        lemma_shell_read_push(seq!['\''], '\'');
        assert(seq![].push('\'') =~= seq!['\'']);
        assert(seq!['\''].push('\'') =~= seq!['\'', '\'']);
        assert(s =~= seq![]);
    } else if forall|i: int| 0 <= i < s.len() ==> is_shell_safe(#[trigger] s[i]) {
        lemma_shell_read_safe(s);
    } else {
        lemma_shell_read_quoted(s);
        let x = seq!['\''] + escape_quotes(s);
        lemma_shell_read_push(x, '\'');
        assert(shell_quoted(s) =~= x.push('\''));
    }
}

/// Quotes `input` for a POSIX shell when it needs it.
pub fn shell_quote(input: &str) -> (r: String)
    ensures
        r@ == shell_quoted(input@),
{
    let v = chars_of(input);
    if v.len() == 0 {
        let q: Vec<char> = vec!['\'', '\''];
        proof {
            assert(q@ =~= seq!['\'', '\'']);
        }
        return string_of(q.as_slice());
    }
    let mut all_safe = true;
    let mut i: usize = 0;
    while i < v.len()
        invariant
            i <= v@.len(),
            all_safe == forall|k: int| 0 <= k < i ==> is_shell_safe(#[trigger] v@[k]),
        decreases v.len() - i,
    {
        if !char_is_shell_safe(v[i]) {
            all_safe = false;
        }
        i = i + 1;
    }
    if all_safe {
        return string_of(v.as_slice());
    }
    let mut out: Vec<char> = Vec::new();
    out.push('\'');
    let mut j: usize = 0;
    while j < v.len()
        invariant
            j <= v@.len(),
            out@ == seq!['\''] + escape_quotes(v@.take(j as int)),
        decreases v.len() - j,
    {
        let ghost before = out@;
        if v[j] == '\'' {
            out.push('\'');
            out.push('"');
            out.push('\'');
            out.push('"');
            out.push('\'');
        } else {
            out.push(v[j]);
        }
        proof {
            assert(v@.take(j + 1).drop_last() =~= v@.take(j as int));
            assert(v@.take(j + 1).last() == v@[j as int]);
            assert(out@ =~= seq!['\''] + escape_quotes(v@.take(j + 1)));
        }
        j = j + 1;
    }
    out.push('\'');
    proof {
        assert(v@.take(j as int) =~= v@);
    }
    string_of(out.as_slice())
}

/// `Ctrl+Alt+{slot} -> {command} activate {slot}`.
pub open spec fn shortcut_line(command: Seq<char>, slot: nat) -> Seq<char> {
    "Ctrl+Alt+"@ + decimal_of(slot as int) + " -> "@ + command + " activate "@ + decimal_of(
        slot as int,
    )
}

/// The shortcut line of each slot 1 to 9, with the executable quoted.
pub fn shortcut_spec_lines(executable: &str) -> (r: Vec<String>)
    ensures
        r@.len() == 9,
        forall|i: int|
            0 <= i < 9 ==> (#[trigger] r@[i])@ == shortcut_line(
                shell_quoted(executable@),
                (i + 1) as nat,
            ),
{
    let quoted = shell_quote(executable);
    let mut lines: Vec<String> = Vec::new();
    let mut slot: u64 = 1;
    while slot <= 9
        invariant
            1 <= slot <= 10,
            lines@.len() == slot - 1,
            quoted@ == shell_quoted(executable@),
            forall|i: int|
                0 <= i < lines@.len() ==> (#[trigger] lines@[i])@ == shortcut_line(
                    quoted@,
                    (i + 1) as nat,
                ),
        decreases 10 - slot,
    {
        lines.push(shortcut_line_for(quoted.as_str(), slot));
        slot = slot + 1;
    }
    lines
}

/// What `window-jump shortcut-specs` prints: a header line, an empty line,
/// then the shortcut line of each slot 1 to 9.
pub fn shortcut_specs_output(executable: &str) -> (r: Vec<String>)
    ensures
        r@.len() == 11,
        r@[0]@ == "GNOME Custom Shortcuts に以下を設定してください。"@,
        r@[1]@.len() == 0,
        forall|i: int|
            0 <= i < 9 ==> (#[trigger] r@[i + 2])@ == shortcut_line(
                shell_quoted(executable@),
                (i + 1) as nat,
            ),
{
    let specs = shortcut_spec_lines(executable);
    let mut r: Vec<String> = Vec::new();
    r.push(crate::text::string_from("GNOME Custom Shortcuts に以下を設定してください。"));
    r.push(crate::text::string_from(""));
    proof {
        reveal_strlit("");
    }
    let mut i: usize = 0;
    while i < specs.len()
        invariant
            specs@.len() == 9,
            i <= 9,
            r@.len() == i + 2,
            r@[0]@ == "GNOME Custom Shortcuts に以下を設定してください。"@,
            r@[1]@.len() == 0,
            forall|k: int| 0 <= k < i ==> (#[trigger] r@[k + 2]) == specs@[k],
        decreases specs.len() - i,
    {
        r.push(specs[i].clone());
        i = i + 1;
    }
    proof {
        assert forall|k: int| 0 <= k < 9 implies (#[trigger] r@[k + 2])@ == shortcut_line(
            shell_quoted(executable@),
            (k + 1) as nat,
        ) by {
            assert(r@[k + 2] == specs@[k]);
        }
    }
    r
}

/// The shortcut line of one slot for an already quoted command.
pub fn shortcut_line_for(command: &str, slot: u64) -> (r: String)
    ensures
        r@ == shortcut_line(command@, slot as nat),
{
    let mut out: Vec<char> = Vec::new();
    append_str(&mut out, "Ctrl+Alt+");
    push_digits(&mut out, slot, 10);
    append_str(&mut out, " -> ");
    append_str(&mut out, command);
    append_str(&mut out, " activate ");
    push_digits(&mut out, slot, 10);
    string_of(out.as_slice())
}

/// `{command} activate {slot}`: the command to bind for one slot.
pub open spec fn shortcut_command(command: Seq<char>, slot: nat) -> Seq<char> {
    command + " activate "@ + decimal_of(slot as int)
}

/// The command to bind for `slot`, with the executable quoted.
pub fn shortcut_command_for(executable: &str, slot: u8) -> (r: String)
    ensures
        r@ == shortcut_command(shell_quoted(executable@), slot as nat),
{
    let quoted = shell_quote(executable);
    let mut out: Vec<char> = Vec::new();
    append_str(&mut out, quoted.as_str());
    append_str(&mut out, " activate ");
    push_digits(&mut out, slot as u64, 10);
    string_of(out.as_slice())
}

/// The components of a path that name something: empty pieces (from
/// repeated or trailing `/`) and `.` are left out.
pub open spec fn path_components(pieces: Seq<Seq<char>>) -> Seq<Seq<char>>
    decreases pieces.len(),
{
    if pieces.len() == 0 {
        seq![]
    } else {
        let r = path_components(pieces.drop_last());
        let p = pieces.last();
        if p.len() == 0 || p == seq!['.'] {
            r
        } else {
            r.push(p)
        }
    }
}

/// The last component of a `/`-separated path, as `Path::file_name` gives
/// it; `None` when there is none or it is `..`.
pub open spec fn file_name_of(path: Seq<char>) -> Option<Seq<char>> {
    let comps = path_components(crate::split::split_on(path, crate::split::SplitMode::PathSeparator));
    if comps.len() == 0 || comps.last() == seq!['.', '.'] {
        None
    } else {
        Some(comps.last())
    }
}

/// Returns the last component of a path (see `file_name_of`).
pub fn file_name(path: &str) -> (r: Option<String>)
    ensures
        opt_chars(r) == file_name_of(path@),
{
    let v = chars_of(path);
    let pieces = crate::split::split_chars(v.as_slice(), crate::split::SplitMode::PathSeparator);
    let ghost ps = crate::split::vviews(pieces@);
    let mut last: Option<usize> = None;
    let mut count: usize = 0;
    let mut i: usize = 0;
    while i < pieces.len()
        invariant
            i <= pieces@.len(),
            ps == crate::split::vviews(pieces@),
            count == path_components(ps.take(i as int)).len(),
            count <= i,
            match last {
                Some(k) => k < i && count > 0 && path_components(ps.take(i as int)).last() == ps[k as int],
                None => count == 0,
            },
        decreases pieces.len() - i,
    {
        proof {
            assert(ps.take(i + 1).drop_last() =~= ps.take(i as int));
            assert(ps.take(i + 1).last() == pieces@[i as int]@);
        }
        let p = &pieces[i];
        let is_dot = p.len() == 1 && p[0] == '.';
        proof {
            if p@.len() == 1 && p@[0] == '.' {
                assert(p@ =~= seq!['.']);
            }
            if p@ == seq!['.'] {
                assert(p@[0] == '.');
            }
        }
        if p.len() > 0 && !is_dot {
            last = Some(i);
            count = count + 1;
        }
        i = i + 1;
    }
    proof {
        assert(ps.take(i as int) =~= ps);
    }
    match last {
        None => None,
        Some(k) => {
            let c = &pieces[k];
            let dotdot = c.len() == 2 && c[0] == '.' && c[1] == '.';
            proof {
                if c@.len() == 2 && c@[0] == '.' && c@[1] == '.' {
                    assert(c@ =~= seq!['.', '.']);
                }
                if c@ == seq!['.', '.'] {
                    assert(c@[0] == '.' && c@[1] == '.');
                }
            }
            if dotdot {
                None
            } else {
                Some(string_of(c.as_slice()))
            }
        },
    }
}

/// The view of an optional string.
pub open spec fn opt_chars(o: Option<String>) -> Option<Seq<char>> {
    match o {
        Some(s) => Some(s@),
        None => None,
    }
}

/// The path shown in shortcut commands: `$WINDOW_JUMP_CLI` when set; when
/// running as `window-jump-config-gui`, the `window-jump` beside it if that
/// exists; when running as anything else, the running executable; else the
/// `window-jump` found in `PATH`; else a placeholder.
pub open spec fn executable_hint_of(
    cli_env: Option<Seq<char>>,
    current_exe: Option<Seq<char>>,
    sibling: Option<Seq<char>>,
    in_path: Option<Seq<char>>,
) -> Seq<char> {
    match cli_env {
        Some(p) => p,
        None => {
            let from_current = match current_exe {
                Some(c) => if file_name_of(c) == Some("window-jump-config-gui"@) {
                    sibling
                } else {
                    Some(c)
                },
                None => None,
            };
            match from_current {
                Some(p) => p,
                None => match in_path {
                    Some(p) => p,
                    None => "/absolute/path/to/window-jump"@,
                },
            }
        },
    }
}

} // verus!

verus! {

/// Chooses the path shown in shortcut commands (see `executable_hint_of`).
/// `sibling` is the `window-jump` beside the running executable when that
/// file exists; `in_path` is the `window-jump` found in `PATH`.
pub fn executable_hint(
    cli_env: Option<String>,
    current_exe: Option<String>,
    sibling: Option<String>,
    in_path: Option<String>,
) -> (r: String)
    ensures
        r@ == executable_hint_of(
            opt_chars(cli_env),
            opt_chars(current_exe),
            opt_chars(sibling),
            opt_chars(in_path),
        ),
{
    if let Some(p) = cli_env {
        return p;
    }
    if let Some(c) = current_exe {
        let name = file_name(c.as_str());
        let is_gui = match &name {
            Some(n) => *n == crate::text::string_from("window-jump-config-gui"),
            None => false,
        };
        if is_gui {
            if let Some(s) = sibling {
                return s;
            }
        } else {
            return c;
        }
    }
    match in_path {
        Some(p) => p,
        None => crate::text::string_from("/absolute/path/to/window-jump"),
    }
}

} // verus!
