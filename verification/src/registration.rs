//! What makes the operating system hand `afsim://` links to this program:
//! the registry values on Windows, the desktop entry and the default
//! handler in `mimeapps.list` on Linux.

use vstd::prelude::*;

use crate::config::Platform;
use crate::config::app_name;
use crate::config::app_name_text;
use crate::config::scheme_name;
use crate::config::scheme_name_text;
use crate::paths::join_all;
use crate::paths::joined_path;
use crate::paths::relative_parts;
use crate::text::concat;
use crate::text::contains;
use crate::text::contains_seq;
use crate::text::ends_with_char;
use crate::text::find_char_from;
use crate::text::join_with;
use crate::text::lemma_find_char_at;
use crate::text::lemma_find_char_none;
use crate::text::occurs_at;
use crate::text::opt_text;
use crate::text::same_text;
use crate::text::strip_cr;
use crate::text::substring;
use crate::text::text_lines;

verus! {

/// `x-scheme-handler/afsim`: the MIME type of the scheme's links.
pub open spec fn mime_type() -> Seq<char> {
    "x-scheme-handler/"@ + scheme_name()
}

/// `afsim.desktop`: the name of the desktop entry.
pub open spec fn desktop_file_name() -> Seq<char> {
    scheme_name() + ".desktop"@
}

/// `[Default Applications]`: the section of `mimeapps.list` with the
/// default handlers.
pub open spec fn default_apps_header() -> Seq<char> {
    "[Default Applications]"@
}

/// `x-scheme-handler/afsim=afsim.desktop` and a line break: the line that
/// makes the desktop entry the scheme's default handler.
pub open spec fn handler_line() -> Seq<char> {
    mime_type() + "="@ + desktop_file_name() + "\n"@
}

/// The MIME type of the scheme's links.
pub fn mime_type_text() -> (r: String)
    ensures
        r@ == mime_type(),
{
    concat("x-scheme-handler/", scheme_name_text())
}

/// The name of the desktop entry.
pub fn desktop_file_name_text() -> (r: String)
    ensures
        r@ == desktop_file_name(),
{
    concat(scheme_name_text(), ".desktop")
}

/// The desktop entry that runs the program at `exe_path` for the scheme's
/// links.
pub open spec fn desktop_entry_text(exe_path: Seq<char>) -> Seq<char> {
    "[Desktop Entry]\nVersion=1.0\nType=Application\nName="@ + app_name()
        + "\nComment=Client Linker Application\nExec="@ + exe_path + " %u\nIcon="@ + exe_path
        + "\nTerminal=false\nCategories=Utility;\nMimeType=x-scheme-handler/"@ + scheme_name()
        + ";\nStartupNotify=true\n"@
}

/// The desktop entry that runs the program at `exe_path` for the scheme's
/// links.
pub fn desktop_entry(exe_path: &str) -> (r: String)
    ensures
        r@ == desktop_entry_text(exe_path@),
{
    let mut r = "[Desktop Entry]\nVersion=1.0\nType=Application\nName=".to_owned();
    r.append(app_name_text());
    r.append("\nComment=Client Linker Application\nExec=");
    r.append(exe_path);
    r.append(" %u\nIcon=");
    r.append(exe_path);
    r.append("\nTerminal=false\nCategories=Utility;\nMimeType=x-scheme-handler/");
    r.append(scheme_name_text());
    r.append(";\nStartupNotify=true\n");
    assert(r@ =~= desktop_entry_text(exe_path@));
    r
}

/// The new content of `mimeapps.list` once the scheme's handler is set, or
/// `None` when the file already names the scheme's MIME type and is left as
/// it is. A missing file counts as just the section header. The section
/// header is added when it is missing, a line break when the content does
/// not end with one, then the handler's line.
pub open spec fn with_handler(existing: Option<Seq<char>>) -> Option<Seq<char>> {
    let content = match existing {
        Some(c) => c,
        None => default_apps_header() + "\n"@,
    };
    if contains_seq(content, mime_type()) {
        None
    } else {
        let with_header = if contains_seq(content, default_apps_header()) {
            content
        } else {
            content + "\n"@ + default_apps_header() + "\n"@
        };
        let ended = if with_header.len() > 0 && with_header.last() == '\n' {
            with_header
        } else {
            with_header + "\n"@
        };
        Some(ended + handler_line())
    }
}

/// Sets the scheme's default handler in the content of `mimeapps.list`
/// (`None` when the file is missing). Gives the content to write, or `None`
/// when nothing is to be written.
pub fn add_scheme_handler(existing: Option<String>) -> (r: Option<String>)
    ensures
        match r {
            Some(c) => with_handler(opt_text(existing)) == Some(c@),
            None => with_handler(opt_text(existing)) is None,
        },
{
    let mut content = match existing {
        Some(c) => c,
        None => {
            let mut c = "[Default Applications]".to_owned();
            c.append("\n");
            c
        },
    };
    let ghost c0 = content@;
    let mime = mime_type_text();
    if contains(content.as_str(), mime.as_str()) {
        return None;
    }
    if !contains(content.as_str(), "[Default Applications]") {
        content.append("\n");
        content.append("[Default Applications]");
        content.append("\n");
    }
    let ghost c1 = content@;
    assert(c1 == if contains_seq(c0, default_apps_header()) {
        c0
    } else {
        c0 + "\n"@ + default_apps_header() + "\n"@
    });
    if !ends_with_char(content.as_str(), '\n') {
        content.append("\n");
    }
    let ghost c2 = content@;
    content.append(mime.as_str());
    content.append("=");
    let name = desktop_file_name_text();
    content.append(name.as_str());
    content.append("\n");
    assert(content@ =~= c2 + handler_line());
    Some(content)
}

/// The lines of `ls` that do not hold `t`, in order.
pub open spec fn lines_without(ls: Seq<Seq<char>>, t: Seq<char>) -> Seq<Seq<char>>
    decreases ls.len(),
{
    if ls.len() == 0 {
        seq![]
    } else if contains_seq(ls.last(), t) {
        lines_without(ls.drop_last(), t)
    } else {
        lines_without(ls.drop_last(), t).push(ls.last())
    }
}

/// The new content of `mimeapps.list` once the scheme's handler is
/// removed: every line that names the scheme's MIME type is dropped, the
/// others are joined by line breaks and end with one. `None` when the joined
/// lines are the content as it was, and nothing is written.
pub open spec fn without_handler(content: Seq<char>) -> Option<Seq<char>> {
    let kept = join_with(lines_without(text_lines(content), mime_type()), "\n"@);
    if kept == content {
        None
    } else {
        Some(kept + "\n"@)
    }
}

/// Reading the lines: the line that starts at `pos`, then the others.
proof fn lemma_lines_step(s: Seq<char>, pos: int, end: int)
    requires
        0 <= pos <= end <= s.len(),
        pos < s.len(),
        end < s.len() ==> s[end] == '\n',
        forall|j: int| pos <= j < end ==> s[j] != '\n',
    ensures
        end < s.len() ==> text_lines(s.skip(pos)) == seq![strip_cr(s.subrange(pos, end))]
            + text_lines(s.skip(end + 1)),
        end == s.len() ==> text_lines(s.skip(pos)) == seq![s.subrange(pos, end)],
{
    let t = s.skip(pos);
    if end < s.len() {
        assert forall|j: int| 0 <= j < end - pos implies t[j] != '\n' by {
            assert(t[j] == s[pos + j]);
        }
        lemma_find_char_at(t, '\n', end - pos);
        assert(t.take(end - pos) =~= s.subrange(pos, end));
        assert(t.skip(end - pos + 1) =~= s.skip(end + 1));
    } else {
        assert forall|j: int| 0 <= j < t.len() implies t[j] != '\n' by {
            assert(t[j] == s[pos + j]);
        }
        lemma_find_char_none(t, '\n');
        assert(t =~= s.subrange(pos, end));
    }
}

/// Removes the scheme's default handler from the content of
/// `mimeapps.list`. Gives the content to write, or `None` when nothing is
/// to be written.
pub fn remove_scheme_handler(content: &str) -> (r: Option<String>)
    ensures
        match r {
            Some(c) => without_handler(content@) == Some(c@),
            None => without_handler(content@) is None,
        },
{
    let n = content.unicode_len();
    let mime = mime_type_text();
    let mut out = String::new();
    let mut any = false;
    let mut pos: usize = 0;
    let ghost mut seen: Seq<Seq<char>> = seq![];
    proof {
        reveal_strlit("\n");
        assert(content@.skip(0) =~= content@);
    }
    while pos < n
        invariant
            n == content@.len(),
            pos <= n,
            mime@ == mime_type(),
            "\n"@ == seq!['\n'],
            text_lines(content@) == seen + text_lines(content@.skip(pos as int)),
            out@ == join_with(lines_without(seen, mime_type()), "\n"@),
            any == (lines_without(seen, mime_type()).len() > 0),
        decreases n - pos,
    {
        let found = find_char_from(content, '\n', pos);
        let line_end = match found {
            Some(e) => e,
            None => n,
        };
        let next = match found {
            Some(e) => e + 1,
            None => n,
        };
        proof {
            lemma_lines_step(content@, pos as int, line_end as int);
        }
        let cut = found.is_some() && line_end > pos && content.get_char(line_end - 1) == '\r';
        let end = if cut {
            line_end - 1
        } else {
            line_end
        };
        let line = substring(content, pos, end);
        proof {
            let raw = content@.subrange(pos as int, line_end as int);
            if found.is_some() {
                if cut {
                    assert(raw.drop_last() =~= line@);
                } else {
                    assert(line@ =~= raw);
                }
                assert(strip_cr(raw) == line@);
            } else {
                assert(line@ =~= raw);
            }
        }
        let ghost before = seen;
        let keep = !contains(line.as_str(), mime.as_str());
        if keep {
            if any {
                out.append("\n");
            }
            out.append(line.as_str());
            any = true;
        }
        proof {
            seen = seen.push(line@);
            assert(seen.drop_last() =~= before);
            let rest = if found.is_some() {
                text_lines(content@.skip(next as int))
            } else {
                seq![]
            };
            assert(text_lines(content@.skip(pos as int)) == seq![line@] + rest);
            assert(before + (seq![line@] + rest) =~= seen + rest);
            if found.is_none() {
                assert(content@.skip(n as int) =~= Seq::<char>::empty());
                assert(text_lines(content@.skip(next as int)) == Seq::<Seq<char>>::empty());
                assert(seen + rest =~= seen + text_lines(content@.skip(next as int)));
            }
            let ks = lines_without(before, mime_type());
            if keep {
                assert(lines_without(seen, mime_type()) == ks.push(line@));
                if ks.len() > 0 {
                    assert(ks.push(line@).drop_last() =~= ks);
                } else {
                    assert(out@ =~= line@);
                }
            }
        }
        pos = next;
    }
    proof {
        assert(content@.skip(n as int) =~= Seq::<char>::empty());
        assert(seen + Seq::<Seq<char>>::empty() =~= seen);
    }
    if same_text(out.as_str(), content) {
        None
    } else {
        out.append("\n");
        Some(out)
    }
}

/// The registry key of the scheme under `HKEY_CURRENT_USER`:
/// `Software\Classes\afsim`.
pub open spec fn registry_key_text() -> Seq<char> {
    "Software\\Classes\\"@ + scheme_name()
}

/// The registry key of the scheme under `HKEY_CURRENT_USER`.
pub fn registry_key_path() -> (r: String)
    ensures
        r@ == registry_key_text(),
{
    concat("Software\\Classes\\", scheme_name_text())
}

/// The scheme's description in the registry: `URL:<program name> Protocol`.
pub fn protocol_description() -> (r: String)
    ensures
        r@ == "URL:"@ + app_name() + " Protocol"@,
{
    let mut r = "URL:".to_owned();
    r.append(app_name_text());
    r.append(" Protocol");
    r
}

/// The scheme's icon in the registry: the program, its first icon.
pub fn icon_value(exe_path: &str) -> (r: String)
    ensures
        r@ == "\""@ + exe_path@ + "\",0"@,
{
    let mut r = "\"".to_owned();
    r.append(exe_path);
    r.append("\",0");
    r
}

/// The command that opens the scheme's links: the program, then the link.
pub fn open_command(exe_path: &str) -> (r: String)
    ensures
        r@ == "\""@ + exe_path@ + "\" \"%1\""@,
{
    let mut r = "\"".to_owned();
    r.append(exe_path);
    r.append("\" \"%1\"");
    r
}

/// Where the registration is found, as shown to the user.
pub open spec fn registry_location(platform: Platform) -> Seq<char> {
    match platform {
        Platform::Windows => "HKEY_CURRENT_USER\\"@ + registry_key_text(),
        Platform::Linux => "~/.local/share/applications/"@ + desktop_file_name(),
        Platform::Other => "不支持的平台"@,
    }
}

/// Where the registration is found, as shown to the user.
pub fn get_registry_path(platform: Platform) -> (r: String)
    ensures
        r@ == registry_location(platform),
{
    match platform {
        Platform::Windows => {
            let key = registry_key_path();
            concat("HKEY_CURRENT_USER\\", key.as_str())
        },
        Platform::Linux => {
            let name = desktop_file_name_text();
            concat("~/.local/share/applications/", name.as_str())
        },
        Platform::Other => "不支持的平台".to_owned(),
    }
}

/// The folder of the user's desktop entries under `home`.
pub fn applications_dir(home: &str) -> (r: String)
    ensures
        relative_parts(seq![home@, ".local/share/applications"@]) ==> joined_path(
            r@,
            seq![home@, ".local/share/applications"@],
        ),
{
    let parts = vec![".local/share/applications"];
    let r = join_all(home, &parts);
    assert(seq![home@] + parts@.map_values(|p: &str| p@) =~= seq![
        home@,
        ".local/share/applications"@,
    ]);
    r
}

/// The path of the scheme's desktop entry under `home`.
pub fn desktop_file_path(home: &str) -> (r: String)
    ensures
        relative_parts(seq![home@, ".local/share/applications"@, desktop_file_name()]) ==> joined_path(
            r@,
            seq![home@, ".local/share/applications"@, desktop_file_name()],
        ),
{
    let name = desktop_file_name_text();
    let parts = vec![".local/share/applications", name.as_str()];
    let r = join_all(home, &parts);
    assert(seq![home@] + parts@.map_values(|p: &str| p@) =~= seq![
        home@,
        ".local/share/applications"@,
        desktop_file_name(),
    ]);
    r
}

/// The path of the user's `mimeapps.list` under `home`.
pub fn mimeapps_path(home: &str) -> (r: String)
    ensures
        relative_parts(seq![home@, ".local/share/applications/mimeapps.list"@]) ==> joined_path(
            r@,
            seq![home@, ".local/share/applications/mimeapps.list"@],
        ),
{
    let parts = vec![".local/share/applications/mimeapps.list"];
    let r = join_all(home, &parts);
    assert(seq![home@] + parts@.map_values(|p: &str| p@) =~= seq![
        home@,
        ".local/share/applications/mimeapps.list"@,
    ]);
    r
}

/// Setting the handler a second time writes nothing: once set, the content
/// names the scheme's MIME type.
pub proof fn law_handler_set_once(existing: Option<Seq<char>>)
    ensures
        with_handler(existing) matches Some(d) ==> with_handler(Some(d)) is None,
{
    if let Some(d) = with_handler(existing) {
        let content = match existing {
            Some(c) => c,
            None => default_apps_header() + "\n"@,
        };
        let with_header = if contains_seq(content, default_apps_header()) {
            content
        } else {
            content + "\n"@ + default_apps_header() + "\n"@
        };
        let ended = if with_header.len() > 0 && with_header.last() == '\n' {
            with_header
        } else {
            with_header + "\n"@
        };
        let at = ended.len() as int;
        assert(d == ended + handler_line());
        assert(d.subrange(at, at + mime_type().len()) =~= mime_type());
        assert(occurs_at(d, mime_type(), at));
    }
}

/// Setting the handler on content that does not name
/// `x-scheme-handler/afsim`, whatever other handlers or lines it holds,
/// always gives content to write: the content as it was, the section header
/// `[Default Applications]` on a line of its own after it where the content
/// has none, a line break where it does not end with one, and then the line
/// `x-scheme-handler/afsim=afsim.desktop`. Content that names
/// `x-scheme-handler/afsim` is left alone, and a missing file becomes the
/// header and the handler's line.
pub proof fn law_handler_added(content: Seq<char>)
    ensures
        contains_seq(content, "x-scheme-handler/afsim"@) ==> with_handler(Some(content)) is None,
        !contains_seq(content, "x-scheme-handler/afsim"@) ==> with_handler(Some(content)) == Some(
            (if contains_seq(content, "[Default Applications]"@) {
                if content.len() > 0 && content.last() == '\n' {
                    content
                } else {
                    content + "\n"@
                }
            } else {
                content + "\n[Default Applications]\n"@
            }) + "x-scheme-handler/afsim=afsim.desktop\n"@,
        ),
        with_handler(None) == Some(
            "[Default Applications]\nx-scheme-handler/afsim=afsim.desktop\n"@,
        ),
{
    lemma_handler_literals();
    lemma_missing_file_content();
    let h = "\n[Default Applications]\n"@;
    let added = content + "\n"@ + default_apps_header() + "\n"@;
    assert(added =~= content + h);
    assert(added.len() > 0 && added.last() == '\n') by {
        reveal_strlit("\n");
    }
}

/// The MIME type, the header and the handler's line as literals.
proof fn lemma_handler_literals()
    ensures
        mime_type() == "x-scheme-handler/afsim"@,
        default_apps_header() == "[Default Applications]"@,
        handler_line() == "x-scheme-handler/afsim=afsim.desktop\n"@,
        "\n"@ + default_apps_header() + "\n"@ == "\n[Default Applications]\n"@,
{
    reveal_strlit("x-scheme-handler/afsim");
    reveal_strlit("x-scheme-handler/");
    reveal_strlit("[Default Applications]");
    reveal_strlit("\n");
    reveal_strlit("\n[Default Applications]\n");
    reveal_strlit("x-scheme-handler/afsim=afsim.desktop\n");
    reveal_strlit("=");
    reveal_strlit(".desktop");
    assert(mime_type() =~= "x-scheme-handler/afsim"@);
    assert(handler_line() =~= "x-scheme-handler/afsim=afsim.desktop\n"@);
    assert("\n"@ + default_apps_header() + "\n"@ =~= "\n[Default Applications]\n"@);
}

/// A missing file gets the header and the handler's line.
proof fn lemma_missing_file_content()
    ensures
        with_handler(None) == Some(
            "[Default Applications]\nx-scheme-handler/afsim=afsim.desktop\n"@,
        ),
{
    lemma_handler_literals();
    reveal_strlit("\n");
    reveal_strlit("[Default Applications]");
    reveal_strlit("x-scheme-handler/afsim");
    reveal_strlit("x-scheme-handler/afsim=afsim.desktop\n");
    reveal_strlit("[Default Applications]\nx-scheme-handler/afsim=afsim.desktop\n");
    let none_content = default_apps_header() + "\n"@;
    assert(none_content.len() == 23);
    assert(!contains_seq(none_content, mime_type())) by {
        if contains_seq(none_content, mime_type()) {
            let i = choose|i: int| occurs_at(none_content, mime_type(), i);
            assert(occurs_at(none_content, mime_type(), i));
            assert(none_content.subrange(i, i + 22)[0] == none_content[i]);
            assert(mime_type()[0] == 'x');
        }
    }
    assert(occurs_at(none_content, default_apps_header(), 0)) by {
        assert(none_content.subrange(0, default_apps_header().len() as int) =~= default_apps_header());
    }
    assert(none_content.last() == '\n');
    assert(none_content + handler_line()
        =~= "[Default Applications]\nx-scheme-handler/afsim=afsim.desktop\n"@);
}

/// The lines of `ls` that do not hold `t` are those that `Seq::filter`
/// keeps with the test that a line does not hold `t`.
proof fn lemma_lines_without_filter(ls: Seq<Seq<char>>, t: Seq<char>, keep: spec_fn(Seq<char>) -> bool)
    requires
        forall|l: Seq<char>| #[trigger] keep(l) == !contains_seq(l, t),
    ensures
        lines_without(ls, t) == ls.filter(keep),
    decreases ls.len(),
{
    reveal(Seq::filter);
    if ls.len() > 0 {
        lemma_lines_without_filter(ls.drop_last(), t, keep);
        assert(keep(ls.last()) == !contains_seq(ls.last(), t));
    }
}

/// Removing the handler keeps, in order, every line of the content that
/// does not hold `x-scheme-handler/afsim`, and drops only those that hold
/// it: the kept lines joined by line breaks, with one at the end, are
/// written, unless they are the content as it was.
pub proof fn law_removal_keeps_lines(content: Seq<char>)
    ensures
        without_handler(content) == ({
            let kept = join_with(
                text_lines(content).filter(
                    |l: Seq<char>| !contains_seq(l, "x-scheme-handler/afsim"@),
                ),
                "\n"@,
            );
            if kept == content {
                None
            } else {
                Some(kept + "\n"@)
            }
        }),
{
    reveal_strlit("x-scheme-handler/afsim");
    reveal_strlit("x-scheme-handler/");
    assert(mime_type() =~= "x-scheme-handler/afsim"@);
    lemma_lines_without_filter(
        text_lines(content),
        mime_type(),
        |l: Seq<char>| !contains_seq(l, "x-scheme-handler/afsim"@),
    );
}

/// Removing the handler keeps exactly the lines that do not name `t`: none
/// of the kept lines names it, and where no line names it every line is
/// kept.
pub proof fn law_removal_keeps_other_lines(ls: Seq<Seq<char>>, t: Seq<char>)
    ensures
        forall|i: int|
            0 <= i < lines_without(ls, t).len() ==> !contains_seq(
                #[trigger] lines_without(ls, t)[i],
                t,
            ),
        (forall|i: int| 0 <= i < ls.len() ==> !contains_seq(#[trigger] ls[i], t)) ==> lines_without(
            ls,
            t,
        ) == ls,
    decreases ls.len(),
{
    if ls.len() > 0 {
        let init = ls.drop_last();
        law_removal_keeps_other_lines(init, t);
        let k = lines_without(init, t);
        if !contains_seq(ls.last(), t) {
            assert forall|i: int| 0 <= i < k.push(ls.last()).len() implies !contains_seq(
                #[trigger] k.push(ls.last())[i],
                t,
            ) by {
                if i < k.len() {
                    assert(k.push(ls.last())[i] == k[i]);
                }
            }
        }
        if forall|i: int| 0 <= i < ls.len() ==> !contains_seq(#[trigger] ls[i], t) {
            assert forall|i: int| 0 <= i < init.len() implies !contains_seq(#[trigger] init[i], t) by {
                assert(init[i] == ls[i]);
            }
            assert(!contains_seq(ls[ls.len() - 1], t));
            assert(init.push(ls.last()) =~= ls);
        }
    }
}

} // verus!
