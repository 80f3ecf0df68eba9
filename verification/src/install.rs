//! The text and settings edits that installing an agent adapter makes: the MCP wrapper
//! script, the contract block merged into an instructions file, the server section upserted
//! into a TOML configuration, and the permissions and guard hooks added to a settings
//! document. Reading and writing the files stays with the installer binary.

use vstd::prelude::*;

use crate::json::{
    json_get, json_get_str, json_view, json_view_members, json_view_seq, lemma_json_view_members,
    lemma_json_view_seq, member_value, JsonV, JsonValue,
};
use crate::layout::{join_path, joined_path};
use crate::text::{
    cat, cat3, owned, str_eq, trim, trim_end_spec, trim_end_text, trim_start_spec,
    trim_start_text, trimmed,
};

verus! {

/// Whether `pat` occurs in `s` at position `i`.
pub open spec fn occurs_at(s: Seq<char>, pat: Seq<char>, i: int) -> bool {
    0 <= i && i + pat.len() <= s.len() && s.subrange(i, i + pat.len()) == pat
}

/// `str::find` from position `i` on: the first place at or after `i` where `pat` occurs.
pub open spec fn find_from(s: Seq<char>, pat: Seq<char>, i: int) -> Option<int>
    decreases s.len() - i,
{
    if i < 0 || i + pat.len() > s.len() {
        None
    } else if occurs_at(s, pat, i) {
        Some(i)
    } else {
        proof {
            if pat.len() == 0 {
                assert(s.subrange(i, i + pat.len()) =~= pat);
            }
        }
        find_from(s, pat, i + 1)
    }
}

/// A text followed by a blank line, or nothing when the text is empty.
pub open spec fn paragraph_then(s: Seq<char>) -> Seq<char> {
    if s.len() == 0 {
        Seq::empty()
    } else {
        s + "\n\n"@
    }
}

/// A blank line followed by a text, or nothing when the text is empty.
pub open spec fn then_paragraph(s: Seq<char>) -> Seq<char> {
    if s.len() == 0 {
        Seq::empty()
    } else {
        "\n\n"@ + s
    }
}

/// What `find_from` finds occurs there, at or after where the search began.
pub proof fn lemma_find_from_occurs(s: Seq<char>, pat: Seq<char>, i: int)
    ensures
        find_from(s, pat, i) matches Some(k) ==> occurs_at(s, pat, k) && i <= k,
    decreases s.len() - i,
{
    if !(i < 0 || i + pat.len() > s.len()) && !occurs_at(s, pat, i) {
        if pat.len() == 0 {
            assert(s.subrange(i, i + pat.len()) =~= pat);
        }
        lemma_find_from_occurs(s, pat, i + 1);
    }
}

/// The first place where `pat` occurs in `s`.
pub fn find_text(s: &str, pat: &str) -> (r: Option<usize>)
    ensures
        match r {
            Some(k) => find_from(s@, pat@, 0) == Some(k as int),
            None => find_from(s@, pat@, 0) is None,
        },
{
    let n = s.unicode_len();
    let m = pat.unicode_len();
    if m > n {
        return None;
    }
    if m == 0 {
        proof {
            assert(s@.subrange(0, 0) =~= pat@);
        }
        return Some(0);
    }
    let mut i: usize = 0;
    while i <= n - m
        invariant
            n == s@.len(),
            m == pat@.len(),
            1 <= m <= n,
            i <= n,
            find_from(s@, pat@, i as int) == find_from(s@, pat@, 0),
        decreases n - i,
    {
        let piece = s.substring_char(i, i + m);
        if str_eq(piece, pat) {
            proof {
                assert(occurs_at(s@, pat@, i as int));
            }
            return Some(i);
        }
        proof {
            assert(!occurs_at(s@, pat@, i as int));
        }
        i += 1;
    }
    None
}

/// The marker that opens the contract block.
pub open spec fn contract_start_marker() -> Seq<char> {
    "<!-- EMBERFLOW CONTRACT START -->"@
}

/// The marker that closes the contract block.
pub open spec fn contract_end_marker() -> Seq<char> {
    "<!-- EMBERFLOW CONTRACT END -->"@
}

/// An instructions file with the contract block merged in: where both markers occur, what
/// stands between the first of each is replaced by the template; else the template is added
/// at the end. Surrounding whitespace is trimmed and paragraphs are separated by a blank line.
pub open spec fn merged_contract(existing: Seq<char>, template: Seq<char>) -> Seq<char> {
    match (
        find_from(existing, contract_start_marker(), 0),
        find_from(existing, contract_end_marker(), 0),
    ) {
        (Some(start), Some(end)) => paragraph_then(trim_end_spec(existing.take(start)))
            + trim_end_spec(template) + then_paragraph(
            trim_start_spec(existing.skip(end + contract_end_marker().len())),
        ),
        _ => paragraph_then(trim_end_spec(existing)) + trim_end_spec(template),
    }
}

fn paragraph_then_text(s: String) -> (r: String)
    ensures
        r@ == paragraph_then(s@),
{
    if s.unicode_len() == 0 {
        s
    } else {
        let r = cat(s.as_str(), "\n\n");
        proof {
            reveal_strlit("\n\n");
        }
        r
    }
}

fn then_paragraph_text(s: String) -> (r: String)
    ensures
        r@ == then_paragraph(s@),
{
    if s.unicode_len() == 0 {
        s
    } else {
        let r = cat("\n\n", s.as_str());
        proof {
            reveal_strlit("\n\n");
        }
        r
    }
}

/// Merges the contract block `template` into the instructions file `existing`.
pub fn merge_contract_block(existing: &str, template: &str) -> (r: String)
    ensures
        r@ == merged_contract(existing@, template@),
{
    let start_marker = "<!-- EMBERFLOW CONTRACT START -->";
    let end_marker = "<!-- EMBERFLOW CONTRACT END -->";
    proof {
        reveal_strlit("<!-- EMBERFLOW CONTRACT START -->");
        reveal_strlit("<!-- EMBERFLOW CONTRACT END -->");
    }
    let body = trim_end_text(template);
    match (find_text(existing, start_marker), find_text(existing, end_marker)) {
        (Some(start), Some(end)) => {
            proof {
                lemma_find_from_occurs(existing@, start_marker@, 0);
                lemma_find_from_occurs(existing@, end_marker@, 0);
            }
            let n = existing.unicode_len();
            let before = trim_end_text(existing.substring_char(0, start));
            let after = trim_start_text(existing.substring_char(end + 31, n));
            proof {
                assert(existing@.subrange(0, start as int) =~= existing@.take(start as int));
                assert(existing@.subrange(end + 31, n as int) =~= existing@.skip(end + 31));
            }
            let head = paragraph_then_text(before);
            let tail = then_paragraph_text(after);
            cat3(head.as_str(), body.as_str(), tail.as_str())
        },
        _ => {
            let head = paragraph_then_text(trim_end_text(existing));
            cat(head.as_str(), body.as_str())
        },
    }
}

/// The script that runs the MCP server binary with the arguments it is given.
pub open spec fn wrapper_script(mcp_binary: Seq<char>) -> Seq<char> {
    "#!/usr/bin/env bash\nset -euo pipefail\n\nexec \""@ + mcp_binary + "\" \"$@\"\n"@
}

/// Writes the wrapper script for an MCP server binary path.
pub fn mcp_wrapper_script(mcp_binary: &str) -> (r: String)
    ensures
        r@ == wrapper_script(mcp_binary@),
{
    proof {
        reveal_strlit("#!/usr/bin/env bash\nset -euo pipefail\n\nexec \"");
        reveal_strlit("\" \"$@\"\n");
    }
    cat3("#!/usr/bin/env bash\nset -euo pipefail\n\nexec \"", mcp_binary, "\" \"$@\"\n")
}

/// The first line break at or after position `i`.
pub open spec fn next_newline(s: Seq<char>, i: int) -> Option<int>
    decreases s.len() - i,
{
    if i < 0 || i >= s.len() {
        None
    } else if s[i] == '\n' {
        Some(i)
    } else {
        next_newline(s, i + 1)
    }
}

pub proof fn lemma_next_newline_bounds(s: Seq<char>, i: int)
    ensures
        next_newline(s, i) matches Some(k) ==> i <= k < s.len() && s[k] == '\n' && forall|j: int|
            i <= j < k ==> s[j] != '\n',
    decreases s.len() - i,
{
    if !(i < 0 || i >= s.len()) && s[i] != '\n' {
        lemma_next_newline_bounds(s, i + 1);
    }
}

/// The line from `i` up to the line break at `k`, without a carriage return before it.
pub open spec fn line_before_break(s: Seq<char>, i: int, k: int) -> Seq<char> {
    let l = s.subrange(i, k);
    if l.len() > 0 && l.last() == '\r' {
        l.drop_last()
    } else {
        l
    }
}

/// `str::lines` on the text from position `i` on: the lines split at `\n` or `\r\n`, with
/// no empty line after a final line break.
pub open spec fn lines_from(s: Seq<char>, i: int) -> Seq<Seq<char>>
    decreases s.len() - i,
{
    if i < 0 || i >= s.len() {
        Seq::empty()
    } else {
        match next_newline(s, i) {
            Some(k) => {
                proof {
                    lemma_next_newline_bounds(s, i);
                }
                seq![line_before_break(s, i, k)] + lines_from(s, k + 1)
            },
            None => seq![s.subrange(i, s.len() as int)],
        }
    }
}

/// Lines joined with `\n` between them.
pub open spec fn joined_lines(ls: Seq<Seq<char>>) -> Seq<char>
    decreases ls.len(),
{
    if ls.len() == 0 {
        Seq::empty()
    } else if ls.len() == 1 {
        ls[0]
    } else {
        joined_lines(ls.drop_last()) + "\n"@ + ls.last()
    }
}

/// The texts of a list of strings.
pub open spec fn texts(v: Seq<String>) -> Seq<Seq<char>> {
    v.map_values(|x: String| x@)
}

/// Splits a text into its lines, as `str::lines` does.
pub fn split_lines(s: &str) -> (r: Vec<String>)
    ensures
        texts(r@) == lines_from(s@, 0),
{
    let n = s.unicode_len();
    let mut out: Vec<String> = Vec::new();
    let mut i: usize = 0;
    while i < n
        invariant
            n == s@.len(),
            i <= n,
            texts(out@) + lines_from(s@, i as int) == lines_from(s@, 0),
        decreases n - i,
    {
        let mut k: usize = i;
        while k < n && s.get_char(k) != '\n'
            invariant
                n == s@.len(),
                i <= k <= n,
                next_newline(s@, k as int) == next_newline(s@, i as int),
            decreases n - k,
        {
            k += 1;
        }
        let ghost rest = lines_from(s@, i as int);
        if k < n {
            proof {
                lemma_next_newline_bounds(s@, i as int);
            }
            let piece = s.substring_char(i, k);
            let line = if k > i && s.get_char(k - 1) == '\r' {
                s.substring_char(i, k - 1).to_owned()
            } else {
                piece.to_owned()
            };
            proof {
                assert(line@ =~= line_before_break(s@, i as int, k as int));
                assert(texts(out@.push(line)) =~= texts(out@).push(line@));
                assert(rest == seq![line@] + lines_from(s@, k + 1));
                assert(texts(out@).push(line@) + lines_from(s@, k + 1) =~= texts(out@) + rest);
            }
            out.push(line);
            i = k + 1;
        } else {
            let line = s.substring_char(i, n).to_owned();
            proof {
                assert(next_newline(s@, n as int) is None);
                assert(rest == seq![s@.subrange(i as int, n as int)]);
                assert(texts(out@.push(line)) =~= texts(out@).push(line@));
                assert(lines_from(s@, n as int) =~= Seq::<Seq<char>>::empty());
                assert(texts(out@).push(line@) + lines_from(s@, n as int) =~= texts(out@) + rest);
            }
            out.push(line);
            i = n;
        }
    }
    proof {
        assert(texts(out@) + lines_from(s@, n as int) =~= texts(out@));
    }
    out
}

/// Joins the lines `a..b` with `\n` between them.
pub fn join_line_range(ls: &Vec<String>, a: usize, b: usize) -> (r: String)
    requires
        a <= b <= ls@.len(),
    ensures
        r@ == joined_lines(texts(ls@).subrange(a as int, b as int)),
{
    let mut out = String::new();
    let mut i: usize = a;
    proof {
        assert(texts(ls@).subrange(a as int, a as int) =~= Seq::<Seq<char>>::empty());
    }
    while i < b
        invariant
            a <= i <= b,
            b <= ls@.len(),
            out@ == joined_lines(texts(ls@).subrange(a as int, i as int)),
        decreases b - i,
    {
        let ghost prev = texts(ls@).subrange(a as int, i as int);
        let ghost next = texts(ls@).subrange(a as int, i + 1);
        proof {
            assert(next.drop_last() =~= prev);
            assert(next.last() == ls@[i as int]@);
        }
        if i > a {
            out.append("\n");
            proof {
                reveal_strlit("\n");
            }
        } else {
            proof {
                assert(prev.len() == 0);
            }
        }
        out.append(ls[i].as_str());
        proof {
            assert(out@ =~= joined_lines(next));
        }
        i += 1;
    }
    out
}

/// The first line at or after `i` whose trimmed text is `header`.
pub open spec fn header_line(ls: Seq<Seq<char>>, header: Seq<char>, i: int) -> Option<int>
    decreases ls.len() - i,
{
    if i < 0 || i >= ls.len() {
        None
    } else if trimmed(ls[i]) == header {
        Some(i)
    } else {
        header_line(ls, header, i + 1)
    }
}

/// Whether a line opens a TOML table: its first non-blank character is `[`.
pub open spec fn opens_table(l: Seq<char>) -> bool {
    trim_start_spec(l).len() > 0 && trim_start_spec(l)[0] == '['
}

/// The first line at or after `i` that opens a table, or the number of lines.
pub open spec fn table_end(ls: Seq<Seq<char>>, i: int) -> int
    decreases ls.len() - i,
{
    if i < 0 || i >= ls.len() {
        ls.len() as int
    } else if opens_table(ls[i]) {
        i
    } else {
        table_end(ls, i + 1)
    }
}

pub proof fn lemma_table_end_bounds(ls: Seq<Seq<char>>, i: int)
    requires
        0 <= i,
    ensures
        i <= table_end(ls, i) <= ls.len() || (i > ls.len() && table_end(ls, i) == ls.len()),
    decreases ls.len() - i,
{
    if i < ls.len() && !opens_table(ls[i]) {
        lemma_table_end_bounds(ls, i + 1);
    }
}

pub proof fn lemma_header_line_bounds(ls: Seq<Seq<char>>, header: Seq<char>, i: int)
    ensures
        header_line(ls, header, i) matches Some(k) ==> 0 <= i <= k < ls.len(),
    decreases ls.len() - i,
{
    if !(i < 0 || i >= ls.len()) && trimmed(ls[i]) != header {
        lemma_header_line_bounds(ls, header, i + 1);
    }
}

/// A TOML text with the table under `header` replaced by `section`, or `section` added at
/// the end when no line is that header. The table runs to the next line that opens one.
pub open spec fn upserted_section(existing: Seq<char>, header: Seq<char>, section: Seq<char>) -> Seq<
    char,
> {
    let ls = lines_from(existing, 0);
    match header_line(ls, header, 0) {
        Some(start) => {
            let end = table_end(ls, start + 1);
            paragraph_then(trim_end_spec(joined_lines(ls.take(start)))) + trim_end_spec(section)
                + then_paragraph(trim_start_spec(joined_lines(ls.subrange(end, ls.len() as int))))
                + "\n"@
        },
        None => paragraph_then(trim_end_spec(existing)) + trim_end_spec(section) + "\n"@,
    }
}

/// Replaces or adds the table under `header` in a TOML text.
pub fn upsert_toml_section(existing: &str, header: &str, section: &str) -> (r: String)
    ensures
        r@ == upserted_section(existing@, header@, section@),
{
    let lines = split_lines(existing);
    let ghost ls = texts(lines@);
    let n = lines.len();
    let mut start: usize = 0;
    while start < n
        invariant
            n == lines@.len(),
            ls == texts(lines@),
            ls == lines_from(existing@, 0),
            start <= n,
            header_line(ls, header@, start as int) == header_line(ls, header@, 0),
        ensures
            start <= n,
            header_line(ls, header@, start as int) == header_line(ls, header@, 0),
            start < n ==> trimmed(ls[start as int]) == header@,
        decreases n - start,
    {
        let t = trim(lines[start].as_str());
        if str_eq(t.as_str(), header) {
            break;
        }
        start += 1;
    }
    let body = trim_end_text(section);
    proof {
        reveal_strlit("\n");
    }
    if start < n {
        let mut end: usize = start + 1;
        proof {
            assert(header_line(ls, header@, 0) == Some(start as int));
        }
        while end < n
            invariant
                n == lines@.len(),
                ls == texts(lines@),
                start < end <= n,
                table_end(ls, end as int) == table_end(ls, start + 1),
            ensures
                start < end <= n,
                table_end(ls, end as int) == table_end(ls, start + 1),
                end < n ==> opens_table(ls[end as int]),
            decreases n - end,
        {
            let t = trim_start_text(lines[end].as_str());
            if t.unicode_len() > 0 && t.get_char(0) == '[' {
                break;
            }
            end += 1;
        }
        proof {
            assert(table_end(ls, end as int) == end);
            assert(ls.subrange(0, start as int) =~= ls.take(start as int));
        }
        let before = join_line_range(&lines, 0, start);
        let after = join_line_range(&lines, end, n);
        let head = paragraph_then_text(trim_end_text(before.as_str()));
        let tail = then_paragraph_text(trim_start_text(after.as_str()));
        let joined = cat3(head.as_str(), body.as_str(), tail.as_str());
        cat(joined.as_str(), "\n")
    } else {
        proof {
            assert(header_line(ls, header@, n as int) is None);
        }
        let head = paragraph_then_text(trim_end_text(existing));
        let joined = cat(head.as_str(), body.as_str());
        cat(joined.as_str(), "\n")
    }
}

/// The members of an object document; anything else has none.
pub open spec fn object_members(v: JsonV) -> Seq<(Seq<char>, JsonV)> {
    match v {
        JsonV::Obj(m) => m,
        _ => Seq::empty(),
    }
}

/// The first member at or after `i` that has the key.
pub open spec fn key_index(ms: Seq<(Seq<char>, JsonV)>, key: Seq<char>, i: int) -> Option<int>
    decreases ms.len() - i,
{
    if i < 0 || i >= ms.len() {
        None
    } else if ms[i].0 == key {
        Some(i)
    } else {
        key_index(ms, key, i + 1)
    }
}

/// An object's members with `key` set to `value`: the first member with the key takes the
/// value, or the member is added at the end.
pub open spec fn with_member(ms: Seq<(Seq<char>, JsonV)>, key: Seq<char>, value: JsonV) -> Seq<
    (Seq<char>, JsonV),
> {
    match key_index(ms, key, 0) {
        Some(i) => ms.update(i, (key, value)),
        None => ms.push((key, value)),
    }
}

/// The members of the object under `key`; a missing or non-object child counts as an empty
/// object, as `entry(key).or_insert_with(Object)` followed by a forced object gives.
pub open spec fn child_members(ms: Seq<(Seq<char>, JsonV)>, key: Seq<char>) -> Seq<
    (Seq<char>, JsonV),
> {
    match member_value(ms, key) {
        Some(JsonV::Obj(m)) => m,
        _ => Seq::empty(),
    }
}

/// The items of the array under `key`; a missing or non-array child counts as empty.
pub open spec fn child_items(ms: Seq<(Seq<char>, JsonV)>, key: Seq<char>) -> Seq<JsonV> {
    match member_value(ms, key) {
        Some(JsonV::Arr(a)) => a,
        _ => Seq::empty(),
    }
}

/// A list of values with a string added unless it is already there.
pub open spec fn with_string(items: Seq<JsonV>, s: Seq<char>) -> Seq<JsonV> {
    if items.contains(JsonV::Str(s)) {
        items
    } else {
        items.push(JsonV::Str(s))
    }
}

/// A list of values with each string added in turn unless it is already there.
pub open spec fn with_strings(items: Seq<JsonV>, ss: Seq<Seq<char>>) -> Seq<JsonV>
    decreases ss.len(),
{
    if ss.len() == 0 {
        items
    } else {
        with_strings(with_string(items, ss[0]), ss.drop_first())
    }
}

/// Whether a hook runs `command` as a command.
pub open spec fn is_command_hook(h: JsonV, command: Seq<char>) -> bool {
    json_get_str(h, "type"@) == Some("command"@) && json_get_str(h, "command"@) == Some(command)
}

/// The hooks listed by a hook entry.
pub open spec fn nested_hooks(entry: JsonV) -> Seq<JsonV> {
    match json_get(entry, "hooks"@) {
        Some(JsonV::Arr(a)) => a,
        _ => Seq::empty(),
    }
}

/// Whether a hook entry matches `matcher` and runs `command` among its hooks.
pub open spec fn runs_hook(entry: JsonV, matcher: Seq<char>, command: Seq<char>) -> bool {
    &&& json_get_str(entry, "matcher"@) == Some(matcher)
    &&& json_get(entry, "hooks"@) matches Some(JsonV::Arr(_))
    &&& exists|j: int|
        0 <= j < nested_hooks(entry).len() && is_command_hook(
            #[trigger] nested_hooks(entry)[j],
            command,
        )
}

/// The hook entry that runs `command` for tools matching `matcher`.
pub open spec fn hook_entry(matcher: Seq<char>, command: Seq<char>) -> JsonV {
    JsonV::Obj(
        seq![
            ("matcher"@, JsonV::Str(matcher)),
            (
                "hooks"@,
                JsonV::Arr(
                    seq![
                        JsonV::Obj(
                            seq![("type"@, JsonV::Str("command"@)), ("command"@, JsonV::Str(command))],
                        ),
                    ],
                ),
            ),
        ],
    )
}

/// Whether some hook entry runs `command` for tools matching `matcher`.
pub open spec fn hook_present(hooks: Seq<JsonV>, matcher: Seq<char>, command: Seq<char>) -> bool {
    exists|i: int| 0 <= i < hooks.len() && runs_hook(#[trigger] hooks[i], matcher, command)
}

/// Hook entries with one for `matcher` and `command` added unless one already runs it.
pub open spec fn with_hook(hooks: Seq<JsonV>, matcher: Seq<char>, command: Seq<char>) -> Seq<JsonV> {
    if hook_present(hooks, matcher, command) {
        hooks
    } else {
        hooks.push(hook_entry(matcher, command))
    }
}

/// The tools an installed agent is allowed to use.
pub open spec fn allowed_tools() -> Seq<Seq<char>> {
    seq!["Bash"@, "Read"@, "Edit"@, "Write"@, "mcp__emberflow__*"@]
}

/// Where the adapter is installed: for the user, or for one project.
#[derive(Debug, Clone, Copy, PartialEq, Eq, Structural)]
pub enum Scope {
    User,
    Project,
}

impl Scope {
    /// The scope named `value`.
    pub fn from_str(value: &str) -> (r: Result<Scope, String>)
        ensures
            value@ == "user"@ ==> r == Ok::<Scope, String>(Scope::User),
            value@ == "project"@ ==> r == Ok::<Scope, String>(Scope::Project),
            value@ != "user"@ && value@ != "project"@ ==> (r matches Err(m) && m@ == "Invalid scope: "@
                + value@),
    {
        proof {
            reveal_strlit("user");
            reveal_strlit("project");
            assert("user"@.len() != "project"@.len());
        }
        if str_eq(value, "user") {
            Ok(Scope::User)
        } else if str_eq(value, "project") {
            Ok(Scope::Project)
        } else {
            proof {
                reveal_strlit("Invalid scope: ");
            }
            Err(cat("Invalid scope: ", value))
        }
    }

    /// The scope's name.
    pub fn as_str(self) -> (r: &'static str)
        ensures
            r@ == (match self {
                Scope::User => "user"@,
                Scope::Project => "project"@,
            }),
    {
        match self {
            Scope::User => "user",
            Scope::Project => "project",
        }
    }
}

/// An agent's settings document with the installed adapter's permissions and guard hooks:
/// the tools allowed, the project directory added for a project install, and the bash and
/// write guards hooked before tool use. What is already there stays.
pub open spec fn updated_settings(
    settings: JsonV,
    hooks_dir: Seq<char>,
    project_dir: Option<Seq<char>>,
) -> JsonV {
    let root = object_members(settings);
    let perm = child_members(root, "permissions"@);
    let perm1 = with_member(
        perm,
        "allow"@,
        JsonV::Arr(with_strings(child_items(perm, "allow"@), allowed_tools())),
    );
    let dirs = child_items(perm1, "additionalDirectories"@);
    let perm2 = with_member(
        perm1,
        "additionalDirectories"@,
        JsonV::Arr(
            match project_dir {
                Some(d) => with_string(dirs, d),
                None => dirs,
            },
        ),
    );
    let root1 = with_member(root, "permissions"@, JsonV::Obj(perm2));
    let hooks = child_members(root1, "hooks"@);
    let bash = joined_path(hooks_dir, "emberflow-bash-guard.sh"@);
    let write = joined_path(hooks_dir, "emberflow-write-guard.sh"@);
    let pre = with_hook(
        with_hook(with_hook(child_items(hooks, "PreToolUse"@), "Bash"@, bash), "Edit"@, write),
        "Write"@,
        write,
    );
    JsonV::Obj(with_member(root1, "hooks"@, JsonV::Obj(with_member(hooks, "PreToolUse"@, JsonV::Arr(pre)))))
}

pub proof fn lemma_member_value_index(ms: Seq<(Seq<char>, JsonV)>, key: Seq<char>, i: int)
    requires
        0 <= i <= ms.len(),
    ensures
        member_value(ms.skip(i), key) == (match key_index(ms, key, i) {
            Some(j) => Some(ms[j].1),
            None => None,
        }),
    decreases ms.len() - i,
{
    if i < ms.len() {
        assert(ms.skip(i)[0] == ms[i]);
        if ms[i].0 != key {
            assert(ms.skip(i).drop_first() =~= ms.skip(i + 1));
            lemma_member_value_index(ms, key, i + 1);
        }
    }
}

pub proof fn lemma_key_index_bounds(ms: Seq<(Seq<char>, JsonV)>, key: Seq<char>, i: int)
    ensures
        key_index(ms, key, i) matches Some(j) ==> i <= j < ms.len() && 0 <= j && ms[j].0 == key,
        key_index(ms, key, i) is None && 0 <= i ==> forall|j: int| i <= j < ms.len() ==> ms[j].0
            != key,
    decreases ms.len() - i,
{
    if !(i < 0 || i >= ms.len()) && ms[i].0 != key {
        lemma_key_index_bounds(ms, key, i + 1);
    }
}

pub proof fn lemma_key_index_same_keys(
    ms: Seq<(Seq<char>, JsonV)>,
    ns: Seq<(Seq<char>, JsonV)>,
    key: Seq<char>,
    i: int,
)
    requires
        ms.len() == ns.len(),
        forall|j: int| 0 <= j < ms.len() ==> ms[j].0 == ns[j].0,
    ensures
        key_index(ms, key, i) == key_index(ns, key, i),
    decreases ms.len() - i,
{
    if !(i < 0 || i >= ms.len()) && ms[i].0 != key {
        lemma_key_index_same_keys(ms, ns, key, i + 1);
    }
}

/// The position of the first member with the key.
fn key_position(members: &Vec<(String, JsonValue)>, key: &str) -> (r: Option<usize>)
    ensures
        match r {
            Some(i) => key_index(json_view_members(members@), key@, 0) == Some(i as int),
            None => key_index(json_view_members(members@), key@, 0) is None,
        },
{
    let ghost ms = json_view_members(members@);
    proof {
        lemma_json_view_members(members@);
    }
    let mut i: usize = 0;
    while i < members.len()
        invariant
            i <= members@.len(),
            ms == json_view_members(members@),
            ms.len() == members@.len(),
            forall|k: int|
                0 <= k < members@.len() ==> (#[trigger] ms[k]) == (
                    members@[k].0@,
                    json_view(members@[k].1),
                ),
            key_index(ms, key@, i as int) == key_index(ms, key@, 0),
        decreases members@.len() - i,
    {
        if str_eq(members[i].0.as_str(), key) {
            return Some(i);
        }
        i += 1;
    }
    None
}

/// The members of an object document, taken out of it.
fn into_members(v: JsonValue) -> (r: Vec<(String, JsonValue)>)
    ensures
        json_view_members(r@) == object_members(v@),
{
    match v {
        JsonValue::Obj(m) => m,
        _ => {
            let r: Vec<(String, JsonValue)> = Vec::new();
            proof {
                assert(json_view_members(r@) =~= Seq::<(Seq<char>, JsonV)>::empty());
            }
            r
        },
    }
}

/// Takes the value of the first member with the key out of an object, leaving null in its
/// place; nothing when no member has the key.
fn take_member(members: &mut Vec<(String, JsonValue)>, key: &str) -> (r: Option<JsonValue>)
    ensures
        match r {
            Some(v) => member_value(json_view_members(old(members)@), key@) == Some(v@),
            None => member_value(json_view_members(old(members)@), key@) is None,
        },
        with_member(json_view_members(final(members)@), key@, JsonV::Null) == with_member(
            json_view_members(old(members)@),
            key@,
            JsonV::Null,
        ),
        forall|x: JsonV|
            with_member(json_view_members(final(members)@), key@, x) == with_member(
                json_view_members(old(members)@),
                key@,
                x,
            ),
        forall|k: Seq<char>|
            k != key@ ==> member_value(json_view_members(final(members)@), k) == member_value(
                json_view_members(old(members)@),
                k,
            ),
{
    let ghost ms0 = json_view_members(members@);
    proof {
        lemma_json_view_members(members@);
        lemma_member_value_index(ms0, key@, 0);
        assert(ms0.skip(0) =~= ms0);
        lemma_key_index_bounds(ms0, key@, 0);
    }
    match key_position(members, key) {
        Some(i) => {
            let (k, v) = members.remove(i);
            members.insert(i, (k, JsonValue::Null));
            let ghost ms1 = json_view_members(members@);
            proof {
                lemma_json_view_members(members@);
                assert(ms1 =~= ms0.update(i as int, (key@, JsonV::Null)));
                lemma_key_index_same_keys(ms1, ms0, key@, 0);
                assert forall|x: JsonV| with_member(ms1, key@, x) == with_member(ms0, key@, x) by {
                    assert(ms1.update(i as int, (key@, x)) =~= ms0.update(i as int, (key@, x)));
                }
                assert forall|kk: Seq<char>| kk != key@ implies member_value(ms1, kk) == member_value(
                    ms0,
                    kk,
                ) by {
                    lemma_member_value_index(ms0, kk, 0);
                    lemma_member_value_index(ms1, kk, 0);
                    assert(ms1.skip(0) =~= ms1);
                    lemma_key_index_bounds(ms0, kk, 0);
                    lemma_key_index_bounds(ms1, kk, 0);
                    lemma_key_index_same_keys(ms1, ms0, kk, 0);
                }
            }
            Some(v)
        },
        None => None,
    }
}

/// The members of the child object under `key`, taken out of the parent.
fn take_child_object(members: &mut Vec<(String, JsonValue)>, key: &str) -> (r: Vec<
    (String, JsonValue),
>)
    ensures
        json_view_members(r@) == child_members(json_view_members(old(members)@), key@),
        forall|x: JsonV|
            with_member(json_view_members(final(members)@), key@, x) == with_member(
                json_view_members(old(members)@),
                key@,
                x,
            ),
        forall|k: Seq<char>|
            k != key@ ==> member_value(json_view_members(final(members)@), k) == member_value(
                json_view_members(old(members)@),
                k,
            ),
{
    match take_member(members, key) {
        Some(v) => into_members(v),
        None => {
            let r: Vec<(String, JsonValue)> = Vec::new();
            proof {
                assert(json_view_members(r@) =~= Seq::<(Seq<char>, JsonV)>::empty());
            }
            r
        },
    }
}

/// The items of the child array under `key`, taken out of the parent.
fn take_child_array(members: &mut Vec<(String, JsonValue)>, key: &str) -> (r: Vec<JsonValue>)
    ensures
        json_view_seq(r@) == child_items(json_view_members(old(members)@), key@),
        forall|x: JsonV|
            with_member(json_view_members(final(members)@), key@, x) == with_member(
                json_view_members(old(members)@),
                key@,
                x,
            ),
        forall|k: Seq<char>|
            k != key@ ==> member_value(json_view_members(final(members)@), k) == member_value(
                json_view_members(old(members)@),
                k,
            ),
{
    match take_member(members, key) {
        Some(JsonValue::Arr(items)) => items,
        _ => {
            let r: Vec<JsonValue> = Vec::new();
            proof {
                assert(json_view_seq(r@) =~= Seq::<JsonV>::empty());
            }
            r
        },
    }
}

/// Sets the member `key` of an object to `value`.
fn put_member(members: &mut Vec<(String, JsonValue)>, key: &str, value: JsonValue)
    ensures
        json_view_members(final(members)@) == with_member(
            json_view_members(old(members)@),
            key@,
            value@,
        ),
{
    let ghost ms0 = json_view_members(members@);
    proof {
        lemma_json_view_members(members@);
        lemma_key_index_bounds(ms0, key@, 0);
    }
    match key_position(members, key) {
        Some(i) => {
            let _ = members.remove(i);
            members.insert(i, (key.to_owned(), value));
            proof {
                lemma_json_view_members(members@);
                assert(json_view_members(members@) =~= ms0.update(i as int, (key@, value@)));
            }
        },
        None => {
            members.push((key.to_owned(), value));
            proof {
                lemma_json_view_members(members@);
                assert(json_view_members(members@) =~= ms0.push((key@, value@)));
            }
        },
    }
}

/// Adds a string to a list of values unless it is already there.
pub fn push_unique_string(values: &mut Vec<JsonValue>, value: &str)
    ensures
        json_view_seq(final(values)@) == with_string(json_view_seq(old(values)@), value@),
{
    let ghost vs = json_view_seq(values@);
    proof {
        lemma_json_view_seq(values@);
    }
    let mut i: usize = 0;
    while i < values.len()
        invariant
            i <= values@.len(),
            vs == json_view_seq(values@),
            vs.len() == values@.len(),
            forall|k: int| 0 <= k < values@.len() ==> (#[trigger] vs[k]) == json_view(values@[k]),
            forall|k: int| 0 <= k < i ==> vs[k] != JsonV::Str(value@),
        decreases values@.len() - i,
    {
        match values[i].as_str() {
            Some(s) => {
                if str_eq(s, value) {
                    proof {
                        assert(vs[i as int] == JsonV::Str(value@));
                        assert(vs.contains(JsonV::Str(value@)));
                    }
                    return;
                }
            },
            None => {},
        }
        i += 1;
    }
    values.push(JsonValue::Str(value.to_owned()));
    proof {
        lemma_json_view_seq(values@);
        assert(!vs.contains(JsonV::Str(value@)));
        assert(json_view_seq(values@) =~= vs.push(JsonV::Str(value@)));
    }
}

/// Whether a hook runs `command` as a command.
fn hook_runs_command(hook: &JsonValue, command: &str) -> (r: bool)
    ensures
        r == is_command_hook(hook@, command@),
{
    proof {
        reveal_strlit("type");
        reveal_strlit("command");
    }
    let kind = match hook.get("type") {
        Some(v) => v.as_str(),
        None => None,
    };
    let run = match hook.get("command") {
        Some(v) => v.as_str(),
        None => None,
    };
    match (kind, run) {
        (Some(k), Some(c)) => str_eq(k, "command") && str_eq(c, command),
        _ => false,
    }
}

/// Whether a hook entry matches `matcher` and runs `command` among its hooks.
#[verifier::loop_isolation(false)]
fn entry_runs_hook(entry: &JsonValue, matcher: &str, command: &str) -> (r: bool)
    ensures
        r == runs_hook(entry@, matcher@, command@),
{
    proof {
        reveal_strlit("matcher");
        reveal_strlit("hooks");
    }
    let matches = match entry.get("matcher") {
        Some(v) => match v.as_str() {
            Some(m) => str_eq(m, matcher),
            None => false,
        },
        None => false,
    };
    if !matches {
        return false;
    }
    let nested = match entry.get("hooks") {
        Some(v) => match v.as_array() {
            Some(items) => items,
            None => {
                return false;
            },
        },
        None => {
            return false;
        },
    };
    let ghost ns = json_view_seq(nested@);
    proof {
        lemma_json_view_seq(nested@);
    }
    let mut j: usize = 0;
    while j < nested.len()
        invariant
            j <= nested@.len(),
            ns == json_view_seq(nested@),
            ns.len() == nested@.len(),
            forall|k: int| 0 <= k < nested@.len() ==> (#[trigger] ns[k]) == json_view(nested@[k]),
            forall|k: int| 0 <= k < j ==> !is_command_hook(#[trigger] ns[k], command@),
        decreases nested@.len() - j,
    {
        if hook_runs_command(&nested[j], command) {
            proof {
                assert(is_command_hook(ns[j as int], command@));
                assert(json_get(entry@, "hooks"@) == Some(JsonV::Arr(ns)));
                assert(json_get_str(entry@, "matcher"@) == Some(matcher@));
                assert(nested_hooks(entry@) == ns);
                assert(is_command_hook(nested_hooks(entry@)[j as int], command@));
            }
            return true;
        }
        j += 1;
    }
    false
}

/// Adds a guard hook entry that runs `command` for tools matching `matcher`, unless one
/// already does.
pub fn add_guard_hook(hooks: &mut Vec<JsonValue>, matcher: &str, command: &str)
    ensures
        json_view_seq(final(hooks)@) == with_hook(json_view_seq(old(hooks)@), matcher@, command@),
{
    let ghost hs = json_view_seq(hooks@);
    proof {
        lemma_json_view_seq(hooks@);
    }
    let mut i: usize = 0;
    while i < hooks.len()
        invariant
            i <= hooks@.len(),
            hs == json_view_seq(hooks@),
            hs.len() == hooks@.len(),
            forall|k: int| 0 <= k < hooks@.len() ==> (#[trigger] hs[k]) == json_view(hooks@[k]),
            forall|k: int| 0 <= k < i ==> !runs_hook(#[trigger] hs[k], matcher@, command@),
        decreases hooks@.len() - i,
    {
        if entry_runs_hook(&hooks[i], matcher, command) {
            proof {
                assert(runs_hook(hs[i as int], matcher@, command@));
            }
            return;
        }
        i += 1;
    }
    let hook_members = vec![
        ("type".to_owned(), JsonValue::Str("command".to_owned())),
        ("command".to_owned(), JsonValue::Str(command.to_owned())),
    ];
    let ghost hook_view = JsonV::Obj(
        seq![("type"@, JsonV::Str("command"@)), ("command"@, JsonV::Str(command@))],
    );
    proof {
        reveal_strlit("type");
        reveal_strlit("command");
        reveal_strlit("matcher");
        reveal_strlit("hooks");
        lemma_json_view_members(hook_members@);
        assert(json_view_members(hook_members@) =~= seq![
            ("type"@, JsonV::Str("command"@)),
            ("command"@, JsonV::Str(command@)),
        ]);
    }
    let hook = JsonValue::Obj(hook_members);
    proof {
        assert(hook@ == hook_view);
    }
    let nested = vec![hook];
    proof {
        lemma_json_view_seq(nested@);
        assert(json_view_seq(nested@) =~= seq![hook_view]);
    }
    let entry_members = vec![
        ("matcher".to_owned(), JsonValue::Str(matcher.to_owned())),
        ("hooks".to_owned(), JsonValue::Arr(nested)),
    ];
    proof {
        lemma_json_view_members(entry_members@);
        assert(json_view_members(entry_members@) =~= seq![
            ("matcher"@, JsonV::Str(matcher@)),
            ("hooks"@, JsonV::Arr(seq![hook_view])),
        ]);
    }
    let entry = JsonValue::Obj(entry_members);
    proof {
        assert(entry@ == hook_entry(matcher@, command@));
    }
    hooks.push(entry);
    proof {
        lemma_json_view_seq(hooks@);
        assert(json_view_seq(hooks@) =~= hs.push(hook_entry(matcher@, command@)));
    }
}

/// The project directory a project install adds to the allowed directories.
pub open spec fn project_directory(scope: Scope, project_root: Option<&str>) -> Option<Seq<char>> {
    match (scope, project_root) {
        (Scope::Project, Some(p)) => Some(p@),
        _ => None,
    }
}

/// Adds the installed adapter's permissions and guard hooks to an agent's settings document;
/// the guards are the scripts in `hooks_dir`.
pub fn update_agent_settings(
    settings: JsonValue,
    hooks_dir: &str,
    scope: Scope,
    project_root: Option<&str>,
) -> (r: JsonValue)
    ensures
        r@ == updated_settings(settings@, hooks_dir@, project_directory(scope, project_root)),
{
    let ghost root0 = object_members(settings@);
    let mut root = into_members(settings);
    let mut perm = take_child_object(&mut root, "permissions");
    let ghost perm0 = json_view_members(perm@);
    let mut allow = take_child_array(&mut perm, "allow");
    let ghost a0 = json_view_seq(allow@);
    push_unique_string(&mut allow, "Bash");
    push_unique_string(&mut allow, "Read");
    push_unique_string(&mut allow, "Edit");
    push_unique_string(&mut allow, "Write");
    push_unique_string(&mut allow, "mcp__emberflow__*");
    proof {
        let ts = allowed_tools();
        assert(ts.drop_first() =~= seq!["Read"@, "Edit"@, "Write"@, "mcp__emberflow__*"@]);
        assert(ts.drop_first().drop_first() =~= seq!["Edit"@, "Write"@, "mcp__emberflow__*"@]);
        assert(ts.drop_first().drop_first().drop_first() =~= seq!["Write"@, "mcp__emberflow__*"@]);
        assert(ts.drop_first().drop_first().drop_first().drop_first() =~= seq![
            "mcp__emberflow__*"@,
        ]);
        assert(ts.drop_first().drop_first().drop_first().drop_first().drop_first()
            =~= Seq::<Seq<char>>::empty());
        reveal_with_fuel(with_strings, 6);
        assert(json_view_seq(allow@) == with_strings(a0, ts));
    }
    put_member(&mut perm, "allow", JsonValue::Arr(allow));
    let mut dirs = take_child_array(&mut perm, "additionalDirectories");
    match (scope, project_root) {
        (Scope::Project, Some(p)) => push_unique_string(&mut dirs, p),
        _ => {},
    }
    put_member(&mut perm, "additionalDirectories", JsonValue::Arr(dirs));
    put_member(&mut root, "permissions", JsonValue::Obj(perm));
    let mut hooks = take_child_object(&mut root, "hooks");
    let mut pre = take_child_array(&mut hooks, "PreToolUse");
    let bash = join_path(hooks_dir, "emberflow-bash-guard.sh");
    let write = join_path(hooks_dir, "emberflow-write-guard.sh");
    add_guard_hook(&mut pre, "Bash", bash.as_str());
    add_guard_hook(&mut pre, "Edit", write.as_str());
    add_guard_hook(&mut pre, "Write", write.as_str());
    put_member(&mut hooks, "PreToolUse", JsonValue::Arr(pre));
    put_member(&mut root, "hooks", JsonValue::Obj(hooks));
    JsonValue::Obj(root)
}

pub proof fn lemma_key_index_push(
    ms: Seq<(Seq<char>, JsonV)>,
    x: (Seq<char>, JsonV),
    key: Seq<char>,
    i: int,
)
    requires
        0 <= i <= ms.len(),
    ensures
        key_index(ms, key, i) is Some ==> key_index(ms.push(x), key, i) == key_index(ms, key, i),
        key_index(ms, key, i) is None ==> key_index(ms.push(x), key, i) == (if x.0 == key {
            Some(ms.len() as int)
        } else {
            None::<int>
        }),
    decreases ms.len() - i,
{
    let ps = ms.push(x);
    if i < ms.len() {
        assert(ps[i] == ms[i]);
        if ms[i].0 != key {
            lemma_key_index_push(ms, x, key, i + 1);
        }
    } else {
        assert(ps[i] == x);
        if x.0 != key {
            assert(key_index(ps, key, i + 1) is None);
        }
    }
}

/// Setting a member and reading it back gives the value set.
pub proof fn lemma_with_member_get(ms: Seq<(Seq<char>, JsonV)>, key: Seq<char>, value: JsonV)
    ensures
        member_value(with_member(ms, key, value), key) == Some(value),
{
    let ns = with_member(ms, key, value);
    lemma_key_index_bounds(ms, key, 0);
    lemma_member_value_index(ns, key, 0);
    assert(ns.skip(0) =~= ns);
    match key_index(ms, key, 0) {
        Some(i) => {
            lemma_key_index_same_keys(ns, ms, key, 0);
        },
        None => {
            lemma_key_index_push(ms, (key, value), key, 0);
        },
    }
}

/// Setting a member leaves the other members as they were.
pub proof fn lemma_with_member_other(
    ms: Seq<(Seq<char>, JsonV)>,
    key: Seq<char>,
    value: JsonV,
    other: Seq<char>,
)
    requires
        other != key,
    ensures
        member_value(with_member(ms, key, value), other) == member_value(ms, other),
{
    let ns = with_member(ms, key, value);
    lemma_key_index_bounds(ms, key, 0);
    lemma_key_index_bounds(ms, other, 0);
    lemma_member_value_index(ns, other, 0);
    lemma_member_value_index(ms, other, 0);
    assert(ns.skip(0) =~= ns);
    assert(ms.skip(0) =~= ms);
    match key_index(ms, key, 0) {
        Some(i) => {
            lemma_key_index_same_keys(ns, ms, other, 0);
        },
        None => {
            lemma_key_index_push(ms, (key, value), other, 0);
        },
    }
}

/// Setting a member to the value it already has changes nothing.
pub proof fn lemma_with_member_same(ms: Seq<(Seq<char>, JsonV)>, key: Seq<char>, value: JsonV)
    requires
        member_value(ms, key) == Some(value),
    ensures
        with_member(ms, key, value) == ms,
{
    lemma_key_index_bounds(ms, key, 0);
    lemma_member_value_index(ms, key, 0);
    assert(ms.skip(0) =~= ms);
    let i = key_index(ms, key, 0)->0;
    assert(ms.update(i, (key, value)) =~= ms);
}

/// Adding a string twice adds it once.
pub proof fn lemma_with_string_twice(items: Seq<JsonV>, s: Seq<char>)
    ensures
        with_string(with_string(items, s), s) == with_string(items, s),
        with_string(items, s).contains(JsonV::Str(s)),
        forall|x: JsonV| items.contains(x) ==> with_string(items, s).contains(x),
{
    if !items.contains(JsonV::Str(s)) {
        let ps = items.push(JsonV::Str(s));
        assert(ps[items.len() as int] == JsonV::Str(s));
        assert forall|x: JsonV| items.contains(x) implies ps.contains(x) by {
            let k = choose|k: int| 0 <= k < items.len() && items[k] == x;
            assert(ps[k] == x);
        }
    }
}

/// Adding strings that are all there already changes nothing.
pub proof fn lemma_with_strings_present(items: Seq<JsonV>, ss: Seq<Seq<char>>)
    requires
        forall|k: int| 0 <= k < ss.len() ==> items.contains(JsonV::Str(#[trigger] ss[k])),
    ensures
        with_strings(items, ss) == items,
    decreases ss.len(),
{
    if ss.len() > 0 {
        assert(items.contains(JsonV::Str(ss[0])));
        assert forall|k: int| 0 <= k < ss.drop_first().len() implies items.contains(
            JsonV::Str(#[trigger] ss.drop_first()[k]),
        ) by {
            assert(ss.drop_first()[k] == ss[k + 1]);
        }
        lemma_with_strings_present(items, ss.drop_first());
    }
}

/// After adding strings, each of them is there, and so is everything that was.
pub proof fn lemma_with_strings_contains(items: Seq<JsonV>, ss: Seq<Seq<char>>)
    ensures
        forall|k: int| 0 <= k < ss.len() ==> with_strings(items, ss).contains(
            JsonV::Str(#[trigger] ss[k]),
        ),
        forall|x: JsonV| items.contains(x) ==> with_strings(items, ss).contains(x),
    decreases ss.len(),
{
    if ss.len() > 0 {
        let next = with_string(items, ss[0]);
        lemma_with_string_twice(items, ss[0]);
        lemma_with_strings_contains(next, ss.drop_first());
        assert forall|k: int| 0 <= k < ss.len() implies with_strings(items, ss).contains(
            JsonV::Str(#[trigger] ss[k]),
        ) by {
            if k > 0 {
                assert(ss.drop_first()[k - 1] == ss[k]);
            }
        }
    }
}

/// Adding strings twice adds them once.
pub proof fn lemma_with_strings_twice(items: Seq<JsonV>, ss: Seq<Seq<char>>)
    ensures
        with_strings(with_strings(items, ss), ss) == with_strings(items, ss),
{
    lemma_with_strings_contains(items, ss);
    lemma_with_strings_present(with_strings(items, ss), ss);
}

/// The hook entry made for `matcher` and `command` runs it.
pub proof fn lemma_hook_entry_runs(matcher: Seq<char>, command: Seq<char>)
    ensures
        runs_hook(hook_entry(matcher, command), matcher, command),
{
    let inner_members = seq![("type"@, JsonV::Str("command"@)), ("command"@, JsonV::Str(command))];
    let inner = JsonV::Obj(inner_members);
    let members = seq![("matcher"@, JsonV::Str(matcher)), ("hooks"@, JsonV::Arr(seq![inner]))];
    assert(hook_entry(matcher, command) == JsonV::Obj(members));
    reveal_strlit("type");
    reveal_strlit("command");
    reveal_strlit("matcher");
    reveal_strlit("hooks");
    assert("type"@.len() != "command"@.len());
    assert("matcher"@.len() != "hooks"@.len());
    assert(inner_members.drop_first() =~= seq![("command"@, JsonV::Str(command))]);
    assert(members.drop_first() =~= seq![("hooks"@, JsonV::Arr(seq![inner]))]);
    assert(member_value(inner_members, "type"@) == Some(JsonV::Str("command"@)));
    assert(member_value(inner_members.drop_first(), "command"@) == Some(JsonV::Str(command)));
    assert(member_value(inner_members, "command"@) == Some(JsonV::Str(command)));
    assert(is_command_hook(inner, command));
    assert(member_value(members, "matcher"@) == Some(JsonV::Str(matcher)));
    assert(member_value(members.drop_first(), "hooks"@) == Some(JsonV::Arr(seq![inner])));
    assert(member_value(members, "hooks"@) == Some(JsonV::Arr(seq![inner])));
    assert(nested_hooks(hook_entry(matcher, command)) == seq![inner]);
    assert(is_command_hook(nested_hooks(hook_entry(matcher, command))[0], command));
}

/// Adding a hook keeps every hook that was run before, and runs the one added.
pub proof fn lemma_with_hook_runs(hooks: Seq<JsonV>, matcher: Seq<char>, command: Seq<char>)
    ensures
        hook_present(with_hook(hooks, matcher, command), matcher, command),
        forall|m: Seq<char>, c: Seq<char>|
            hook_present(hooks, m, c) ==> #[trigger] hook_present(
                with_hook(hooks, matcher, command),
                m,
                c,
            ),
{
    let out = with_hook(hooks, matcher, command);
    if !hook_present(hooks, matcher, command) {
        lemma_hook_entry_runs(matcher, command);
        assert(out[hooks.len() as int] == hook_entry(matcher, command));
        assert forall|m: Seq<char>, c: Seq<char>| hook_present(hooks, m, c) implies #[trigger] hook_present(
            out,
            m,
            c,
        ) by {
            let i = choose|i: int| 0 <= i < hooks.len() && runs_hook(#[trigger] hooks[i], m, c);
            assert(out[i] == hooks[i]);
        }
    }
}

/// Where `find_from` lands, nothing matched before; when it finds nothing, nothing matches.
pub proof fn lemma_find_from_first(s: Seq<char>, pat: Seq<char>, i: int)
    requires
        0 <= i,
    ensures
        find_from(s, pat, i) matches Some(k) ==> forall|j: int|
            i <= j < k ==> !#[trigger] occurs_at(s, pat, j),
        find_from(s, pat, i) is None ==> forall|j: int| i <= j ==> !#[trigger] occurs_at(s, pat, j),
    decreases s.len() - i,
{
    if i + pat.len() > s.len() {
    } else if occurs_at(s, pat, i) {
    } else {
        if pat.len() == 0 {
            assert(s.subrange(i, i + pat.len()) =~= pat);
        }
        lemma_find_from_first(s, pat, i + 1);
    }
}

/// A match with nothing matched before it is what `find_from` finds.
pub proof fn lemma_find_from_at(s: Seq<char>, pat: Seq<char>, i: int, k: int)
    requires
        0 <= i <= k,
        occurs_at(s, pat, k),
        forall|j: int| i <= j < k ==> !#[trigger] occurs_at(s, pat, j),
    ensures
        find_from(s, pat, i) == Some(k),
    decreases k - i,
{
    if i < k {
        assert(!occurs_at(s, pat, i));
        lemma_find_from_at(s, pat, i + 1, k);
    }
}

/// A trimmed template that opens with the start marker and whose first end marker closes it.
pub open spec fn is_contract_block(template: Seq<char>) -> bool {
    let b = trim_end_spec(template);
    &&& find_from(b, contract_start_marker(), 0) == Some(0int)
    &&& find_from(b, contract_end_marker(), 0) == Some(b.len() - contract_end_marker().len())
}

/// A file holds neither marker, or a start marker whose first end marker follows it.
pub open spec fn markers_in_order(existing: Seq<char>) -> bool {
    match (
        find_from(existing, contract_start_marker(), 0),
        find_from(existing, contract_end_marker(), 0),
    ) {
        (None, None) => true,
        (Some(start), Some(end)) => start + contract_start_marker().len() <= end,
        _ => false,
    }
}

pub proof fn lemma_marker_chars()
    ensures
        contract_start_marker().len() == 33,
        contract_end_marker().len() == 31,
        contract_start_marker()[0] == '<',
        contract_end_marker()[0] == '<',
        forall|j: int| 0 <= j < 33 ==> #[trigger] contract_start_marker()[j] != '\n',
        forall|j: int| 0 <= j < 31 ==> #[trigger] contract_end_marker()[j] != '\n',
{
    reveal_strlit("<!-- EMBERFLOW CONTRACT START -->");
    reveal_strlit("<!-- EMBERFLOW CONTRACT END -->");
}

/// In `paragraph_then(p) + block + rest`, with `p` free of the pattern and the pattern first
/// matching `block` at `k`, the first match is at `k` within the block.
pub proof fn lemma_first_match_in_block(
    p: Seq<char>,
    block: Seq<char>,
    rest: Seq<char>,
    pat: Seq<char>,
    k: int,
)
    requires
        pat.len() > 0,
        pat[0] == '<',
        forall|j: int| 0 <= j < pat.len() ==> #[trigger] pat[j] != '\n',
        forall|j: int| !#[trigger] occurs_at(p, pat, j),
        0 <= k,
        k + pat.len() <= block.len(),
        occurs_at(block, pat, k),
        forall|j: int| 0 <= j < k ==> !#[trigger] occurs_at(block, pat, j),
    ensures
        find_from(paragraph_then(p) + block + rest, pat, 0) == Some(paragraph_then(p).len() + k),
{
    let h = paragraph_then(p);
    let r = h + block + rest;
    let hl = h.len() as int;
    let l = pat.len() as int;
    reveal_strlit("\n\n");
    assert forall|j: int| p.len() <= j < hl implies #[trigger] r[j] == '\n' by {
        assert(h[j] == "\n\n"@[j - p.len()]);
        assert(r[j] == h[j]);
    }
    assert forall|j: int| 0 <= j < hl + k implies !#[trigger] occurs_at(r, pat, j) by {
        if occurs_at(r, pat, j) {
            let piece = r.subrange(j, j + l);
            if j >= hl {
                let c = j - hl;
                assert(piece =~= block.subrange(c, c + l));
                assert(occurs_at(block, pat, c));
            } else if j < p.len() {
                if j + l <= p.len() {
                    assert(piece =~= p.subrange(j, j + l));
                    assert(occurs_at(p, pat, j));
                } else {
                    let q = p.len() - j;
                    assert(r[p.len() as int] == '\n');
                    assert(piece[q] == r[p.len() as int]);
                    assert(pat[q] != '\n');
                }
            } else {
                assert(r[j] == '\n');
                assert(piece[0] == r[j]);
            }
        }
    }
    assert(r.subrange(hl + k, hl + k + l) =~= block.subrange(k, k + l));
    assert(occurs_at(r, pat, hl + k));
    lemma_find_from_at(r, pat, 0, hl + k);
}

/// A prefix of a text with no match of the pattern has none either.
pub proof fn lemma_prefix_clean(x: Seq<char>, p: Seq<char>, pat: Seq<char>, f: Option<int>)
    requires
        pat.len() > 0,
        p == x.take(p.len() as int),
        p.len() <= x.len(),
        f == find_from(x, pat, 0),
        f matches Some(k) ==> p.len() <= k,
    ensures
        forall|j: int| !#[trigger] occurs_at(p, pat, j),
{
    lemma_find_from_first(x, pat, 0);
    assert forall|j: int| !#[trigger] occurs_at(p, pat, j) by {
        if occurs_at(p, pat, j) {
            assert(x.subrange(j, j + pat.len()) =~= p.subrange(j, j + pat.len()));
            assert(occurs_at(x, pat, j));
        }
    }
}

} // verus!
