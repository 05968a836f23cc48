//! Starting the program when the user logs in.

use vstd::prelude::*;
use vstd::string::StringExecFns;
use crate::http::{before, text_before};
use crate::text::{
    between, chars_of, find_from, find_index, lemma_find_char_unique, lemma_find_from,
    lemma_find_from_unique, lines_of, lines_spec, opt_view, same_text, starts_at, strip_prefix,
    strip_prefix_spec, views,
};

verus! {

/// The entry that starts a program on a free desktop.
pub open spec fn desktop_entry(exe: Seq<char>) -> Seq<char> {
    "[Desktop Entry]\nType=Application\nName=mini-mdr\nExec=\""@ + exe
        + "\"\nX-GNOME-Autostart-enabled=true\nHidden=false\n"@
}

/// The entry that starts a program on a free desktop.
pub fn desktop_contents(exe: &str) -> (r: String)
    ensures
        r@ == desktop_entry(exe@),
{
    let mut s = "[Desktop Entry]\nType=Application\nName=mini-mdr\nExec=\"".to_owned();
    s.append(exe);
    s.append("\"\nX-GNOME-Autostart-enabled=true\nHidden=false\n");
    s
}

/// The property list that starts a program on macOS.
pub open spec fn property_list(exe: Seq<char>) -> Seq<char> {
    "<?xml version=\"1.0\" encoding=\"UTF-8\"?>
<!DOCTYPE plist PUBLIC \"-//Apple//DTD PLIST 1.0//EN\" \"http://www.apple.com/DTDs/PropertyList-1.0.dtd\">
<plist version=\"1.0\">
<dict>
    <key>Label</key>
    <string>com.mini-mdr.app</string>
    <key>ProgramArguments</key>
    <array>
        <string>"@ + exe + "</string>
    </array>
    <key>RunAtLoad</key>
    <true/>
    <key>ProcessType</key>
    <string>Interactive</string>
</dict>
</plist>
"@
}

/// The property list that starts a program on macOS.
pub fn plist_contents(exe: &str) -> (r: String)
    ensures
        r@ == property_list(exe@),
{
    let mut s = "<?xml version=\"1.0\" encoding=\"UTF-8\"?>
<!DOCTYPE plist PUBLIC \"-//Apple//DTD PLIST 1.0//EN\" \"http://www.apple.com/DTDs/PropertyList-1.0.dtd\">
<plist version=\"1.0\">
<dict>
    <key>Label</key>
    <string>com.mini-mdr.app</string>
    <key>ProgramArguments</key>
    <array>
        <string>".to_owned();
    s.append(exe);
    s.append("</string>
    </array>
    <key>RunAtLoad</key>
    <true/>
    <key>ProcessType</key>
    <string>Interactive</string>
</dict>
</plist>
");
    s
}

/// The value that starts a program on Windows.
pub open spec fn registry_entry(exe: Seq<char>) -> Seq<char> {
    "\""@ + exe + "\""@
}

/// The value that starts a program on Windows.
pub fn registry_value(exe: &str) -> (r: String)
    ensures
        r@ == registry_entry(exe@),
{
    let mut s = "\"".to_owned();
    s.append(exe);
    s.append("\"");
    s
}

/// The program in a command: what stands between the quotes where it begins with one, and
/// else what stands before the first space.
pub open spec fn program_of(command: Seq<char>) -> Seq<char> {
    match strip_prefix_spec(command, "\""@) {
        Some(quoted) => before(quoted, '"'),
        None => before(command, ' '),
    }
}

/// The command of the first line, not before `from`, that gives one.
pub open spec fn first_command(lines: Seq<Seq<char>>, from: int) -> Option<Seq<char>>
    decreases lines.len() - from,
{
    if from < 0 || from >= lines.len() {
        None
    } else {
        match strip_prefix_spec(lines[from], "Exec="@) {
            Some(command) => Some(command),
            None => first_command(lines, from + 1),
        }
    }
}

/// The program that a desktop entry starts: the one that its first `Exec=` line names.
pub open spec fn desktop_program(text: Seq<char>) -> Option<Seq<char>> {
    match first_command(lines_spec(text), 0) {
        Some(command) => Some(program_of(command)),
        None => None,
    }
}

/// The program that a desktop entry starts.
fn program_of_desktop(text: &str) -> (r: Option<String>)
    ensures
        opt_view(r) == desktop_program(text@),
{
    let lines = lines_of(text);
    let ghost all = lines_spec(text@);
    let mut i: usize = 0;
    while i < lines.len()
        invariant
            i <= lines.len(),
            views(lines@) == all,
            all == lines_spec(text@),
            first_command(all, 0) == first_command(all, i as int),
        decreases lines.len() - i,
    {
        assert(all[i as int] == lines@[i as int]@);
        if let Some(command) = strip_prefix(&lines[i], "Exec=") {
            return Some(
                match strip_prefix(&command, "\"") {
                    Some(quoted) => text_before(&quoted, '"'),
                    None => text_before(&command, ' '),
                },
            );
        }
        i += 1;
    }
    None
}

/// The program that a property list starts: what the first `<string>` behind the key of the
/// arguments holds.
pub open spec fn plist_program(text: Seq<char>) -> Option<Seq<char>> {
    let key = "<key>ProgramArguments</key>"@;
    let opening = "<string>"@;
    match find_from(text, key, 0) {
        Some(at) => match find_from(text, opening, at + key.len()) {
            Some(open) => match find_from(text, "</string>"@, open + opening.len()) {
                Some(close) => Some(text.subrange(open + opening.len(), close)),
                None => None,
            },
            None => None,
        },
        None => None,
    }
}

/// The program that a property list starts.
fn program_of_plist(text: &str) -> (r: Option<String>)
    ensures
        opt_view(r) == plist_program(text@),
{
    let chars = chars_of(text);
    let key = chars_of("<key>ProgramArguments</key>");
    let opening = chars_of("<string>");
    let closing = chars_of("</string>");
    proof {
        lemma_find_from(text@, key@, 0);
    }
    let at = match find_index(&chars, &key, 0) {
        Some(at) => at,
        None => return None,
    };
    assert(at + key.len() <= chars.len());
    let behind: usize = at + key.len();
    proof {
        lemma_find_from(text@, opening@, behind as int);
    }
    let open = match find_index(&chars, &opening, behind) {
        Some(open) => open,
        None => return None,
    };
    assert(open + opening.len() <= chars.len());
    let start: usize = open + opening.len();
    proof {
        lemma_find_from(text@, closing@, start as int);
    }
    match find_index(&chars, &closing, start) {
        Some(close) => Some(between(&chars, start, close)),
        None => None,
    }
}

/// Whether a text that was read is that of a program.
fn is_program(found: Option<String>, exe: &str) -> (r: bool)
    ensures
        r == (opt_view(found) == Some(exe@)),
{
    match found {
        Some(program) => same_text(&program, exe),
        None => false,
    }
}

/// Whether what was found where programs are registered names this program: a desktop entry
/// or a property list that starts it, or the value that starts it on Windows.
pub fn names_executable(found: Option<&str>, exe: &str) -> (r: bool)
    ensures
        r == match found {
            Some(text) => desktop_program(text@) == Some(exe@) || plist_program(text@) == Some(exe@)
                || text@ == "\""@ + exe@ + "\""@,
            None => false,
        },
{
    match found {
        Some(text) => is_program(program_of_desktop(text), exe) || is_program(
            program_of_plist(text),
            exe,
        ) || same_text(text, &registry_value(exe)),
        None => false,
    }
}

/// The first line of a text, where a line feed follows it, is the first of its lines.
proof fn lemma_first_line(line: Seq<char>, rest: Seq<char>)
    requires
        !line.contains('\n'),
        line.len() > 0 ==> line.last() != '\r',
    ensures
        lines_spec(line + seq!['\n'] + rest) == seq![line] + lines_spec(rest),
{
    let s = line + seq!['\n'] + rest;
    assert forall|j: int| 0 <= j < line.len() implies s[j] != '\n' by {
        assert(line.contains(line[j]));
    }
    lemma_find_char_unique(s, '\n', 0, line.len() as int);
    assert(s.take(line.len() as int) =~= line);
    assert(s.skip(line.len() as int + 1) =~= rest);
}

/// The entry that registers a program names it, where its path holds no quote and no line
/// feed.
pub proof fn law_desktop_entry_names_its_program(exe: Seq<char>)
    requires
        !exe.contains('"'),
        !exe.contains('\n'),
    ensures
        desktop_program(desktop_entry(exe)) == Some(exe),
{
    law_lines_behind_an_entry_do_not_matter(exe, Seq::empty());
    assert(desktop_entry(exe) + Seq::empty() =~= desktop_entry(exe));
}

/// Whatever is added behind the entry of a program, it names that program.
pub proof fn law_lines_behind_an_entry_do_not_matter(exe: Seq<char>, more: Seq<char>)
    requires
        !exe.contains('"'),
        !exe.contains('\n'),
    ensures
        desktop_program(desktop_entry(exe) + more) == Some(exe),
{
    reveal_strlit("[Desktop Entry]\nType=Application\nName=mini-mdr\nExec=\"");
    reveal_strlit("\"\nX-GNOME-Autostart-enabled=true\nHidden=false\n");
    reveal_strlit("[Desktop Entry]");
    reveal_strlit("Type=Application");
    reveal_strlit("Name=mini-mdr");
    reveal_strlit("Exec=");
    reveal_strlit("\"");
    reveal_strlit("X-GNOME-Autostart-enabled=true\nHidden=false\n");
    let tail = "X-GNOME-Autostart-enabled=true\nHidden=false\n"@ + more;
    let command = "\""@ + exe + "\""@;
    let fourth = "Exec="@ + command;
    let from_fourth = fourth + seq!['\n'] + tail;
    let from_third = "Name=mini-mdr"@ + seq!['\n'] + from_fourth;
    let from_second = "Type=Application"@ + seq!['\n'] + from_third;
    let text = "[Desktop Entry]"@ + seq!['\n'] + from_second;
    assert(desktop_entry(exe) + more =~= text);
    assert forall|j: int| 0 <= j < fourth.len() implies fourth[j] != '\n' by {
        if 6 <= j < 6 + exe.len() {
            assert(exe.contains(exe[j - 6]));
        }
    }
    lemma_first_line(fourth, tail);
    lemma_first_line("Name=mini-mdr"@, from_fourth);
    lemma_first_line("Type=Application"@, from_third);
    lemma_first_line("[Desktop Entry]"@, from_second);
    let lines = lines_spec(text);
    assert(lines[0] == "[Desktop Entry]"@);
    assert(lines[1] == "Type=Application"@);
    assert(lines[2] == "Name=mini-mdr"@);
    assert(lines[3] == fourth);
    assert(lines[0].subrange(0, 5)[0] == '[');
    assert(lines[1].subrange(0, 5)[0] == 'T');
    assert(lines[2].subrange(0, 5)[0] == 'N');
    assert(fourth.subrange(0, 5) =~= "Exec="@);
    assert(fourth.skip(5) =~= command);
    reveal_with_fuel(first_command, 5);
    assert(first_command(lines, 0) == Some(command));
    assert(command.subrange(0, 1) =~= "\""@);
    let quoted = command.skip(1);
    assert forall|j: int| 0 <= j < exe.len() implies quoted[j] != '"' by {
        assert(exe.contains(exe[j]));
        assert(quoted[j] == exe[j]);
    }
    lemma_find_char_unique(quoted, '"', 0, exe.len() as int);
    assert(quoted.take(exe.len() as int) =~= exe);
}

/// The entry of a program is that of an application, goes by the name of this one, and is in
/// force.
pub proof fn law_desktop_entry_is_in_force(exe: Seq<char>)
    requires
        !exe.contains('\n'),
    ensures
        lines_spec(desktop_entry(exe)) == seq![
            "[Desktop Entry]"@,
            "Type=Application"@,
            "Name=mini-mdr"@,
            "Exec=\""@ + exe + "\""@,
            "X-GNOME-Autostart-enabled=true"@,
            "Hidden=false"@,
        ],
{
    reveal_strlit("[Desktop Entry]\nType=Application\nName=mini-mdr\nExec=\"");
    reveal_strlit("\"\nX-GNOME-Autostart-enabled=true\nHidden=false\n");
    reveal_strlit("[Desktop Entry]");
    reveal_strlit("Type=Application");
    reveal_strlit("Name=mini-mdr");
    reveal_strlit("Exec=\"");
    reveal_strlit("\"");
    reveal_strlit("X-GNOME-Autostart-enabled=true");
    reveal_strlit("Hidden=false");
    let none = Seq::<char>::empty();
    let e = seq!['\n'];
    let fourth = "Exec=\""@ + exe + "\""@;
    let r5 = "Hidden=false"@ + e + none;
    let r4 = "X-GNOME-Autostart-enabled=true"@ + e + r5;
    let r3 = fourth + e + r4;
    let r2 = "Name=mini-mdr"@ + e + r3;
    let r1 = "Type=Application"@ + e + r2;
    assert(desktop_entry(exe) =~= "[Desktop Entry]"@ + e + r1);
    assert forall|j: int| 0 <= j < fourth.len() implies fourth[j] != '\n' by {
        if 6 <= j < 6 + exe.len() {
            assert(exe.contains(exe[j - 6]));
        }
    }
    lemma_first_line("Hidden=false"@, none);
    lemma_first_line("X-GNOME-Autostart-enabled=true"@, r5);
    lemma_first_line(fourth, r4);
    lemma_first_line("Name=mini-mdr"@, r3);
    lemma_first_line("Type=Application"@, r2);
    lemma_first_line("[Desktop Entry]"@, r1);
    assert(lines_spec(none) =~= Seq::empty());
    assert(lines_spec(desktop_entry(exe)) =~= seq![
        "[Desktop Entry]"@,
        "Type=Application"@,
        "Name=mini-mdr"@,
        fourth,
        "X-GNOME-Autostart-enabled=true"@,
        "Hidden=false"@,
    ]);
}

/// The value that registers a program names it, where its path holds no quote.
pub proof fn law_registry_value_names_its_program(exe: Seq<char>)
    requires
        !exe.contains('"'),
    ensures
        program_of(registry_entry(exe)) == exe,
{
    reveal_strlit("\"");
    let command = registry_entry(exe);
    assert(command.subrange(0, 1) =~= "\""@);
    let quoted = command.skip(1);
    assert forall|j: int| 0 <= j < exe.len() implies quoted[j] != '"' by {
        assert(exe.contains(exe[j]));
        assert(quoted[j] == exe[j]);
    }
    lemma_find_char_unique(quoted, '"', 0, exe.len() as int);
    assert(quoted.take(exe.len() as int) =~= exe);
}

/// A pattern is found where it stands, if a character of it stands nowhere before.
proof fn lemma_found(s: Seq<char>, pattern: Seq<char>, from: int, i: int, k: int)
    requires
        0 <= from <= i,
        starts_at(s, pattern, i),
        0 <= k < pattern.len(),
        forall|j: int| from + k <= j < i + k ==> s[j] != pattern[k],
    ensures
        find_from(s, pattern, from) == Some(i),
{
    assert forall|j: int| from <= j < i implies !starts_at(s, pattern, j) by {
        if starts_at(s, pattern, j) {
            assert(s.subrange(j, j + pattern.len())[k] == s[j + k]);
        }
    }
    lemma_find_from_unique(s, pattern, from, i);
}

/// The property list that registers a program names it, where its path holds no tag.
pub proof fn law_property_list_names_its_program(exe: Seq<char>)
    requires
        !exe.contains('<'),
    ensures
        plist_program(property_list(exe)) == Some(exe),
{
    law_text_behind_a_list_does_not_matter(exe, Seq::empty());
    assert(property_list(exe) + Seq::empty() =~= property_list(exe));
}

/// Whatever is added behind the property list of a program, it names that program.
pub proof fn law_text_behind_a_list_does_not_matter(exe: Seq<char>, more: Seq<char>)
    requires
        !exe.contains('<'),
    ensures
        plist_program(property_list(exe) + more) == Some(exe),
{
    reveal_strlit("<?xml version=\"1.0\" encoding=\"UTF-8\"?>
<!DOCTYPE plist PUBLIC \"-//Apple//DTD PLIST 1.0//EN\" \"http://www.apple.com/DTDs/PropertyList-1.0.dtd\">
<plist version=\"1.0\">
<dict>
    <key>Label</key>
    <string>com.mini-mdr.app</string>
    <key>ProgramArguments</key>
    <array>
        <string>");
    reveal_strlit("</string>
    </array>
    <key>RunAtLoad</key>
    <true/>
    <key>ProcessType</key>
    <string>Interactive</string>
</dict>
</plist>
");
    reveal_strlit("<key>ProgramArguments</key>");
    reveal_strlit("<string>");
    reveal_strlit("</string>");
    let head = "<?xml version=\"1.0\" encoding=\"UTF-8\"?>
<!DOCTYPE plist PUBLIC \"-//Apple//DTD PLIST 1.0//EN\" \"http://www.apple.com/DTDs/PropertyList-1.0.dtd\">
<plist version=\"1.0\">
<dict>
    <key>Label</key>
    <string>com.mini-mdr.app</string>
    <key>ProgramArguments</key>
    <array>
        <string>"@;
    let text = property_list(exe) + more;
    let close = (head.len() + exe.len()) as int;
    assert forall|j: int| 0 <= j < head.len() implies text[j] == head[j] by {}
    assert(text.subrange(234, 261) =~= "<key>ProgramArguments</key>"@);
    lemma_found(text, "<key>ProgramArguments</key>"@, 0, 234, 15);
    assert(text.subrange(282, 290) =~= "<string>"@);
    lemma_found(text, "<string>"@, 261, 282, 1);
    assert forall|j: int| 290 <= j < close implies text[j] != '<' by {
        assert(exe.contains(exe[j - 290]));
    }
    assert(text.subrange(close, close + 9) =~= "</string>"@);
    lemma_found(text, "</string>"@, 290, close, 0);
    assert(text.subrange(290, close) =~= exe);
}

} // verus!
