use vstd::prelude::*;

use crate::error::{is_unsupported, unsupported, EmberFlowError};
use crate::json::{json_error_message, json_parse_error, json_parses, json_text_get_str, json_top_level_string};
use crate::text::{cat, cat3, opt_view, owned, str_eq};

verus! {

/// Where the runtime status is projected, relative to the project root.
pub open spec fn runtime_status_path_spec() -> Seq<char> {
    ".emberflow/context/status.md"@
}

/// Where projected track directories live, relative to the project root.
pub open spec fn track_directory_prefix_spec() -> Seq<char> {
    ".emberflow/tracks/"@
}

/// The projected runtime status file, relative to the project root.
pub fn projected_runtime_status_path() -> (r: &'static str)
    ensures
        r@ == runtime_status_path_spec(),
{
    ".emberflow/context/status.md"
}

/// The prefix of projected track directories, relative to the project root.
pub fn projected_track_directory_prefix() -> (r: &'static str)
    ensures
        r@ == track_directory_prefix_spec(),
{
    ".emberflow/tracks/"
}

/// Whether projected files are written next to the canonical state.
#[derive(Debug, Clone, Copy, PartialEq, Eq, Structural)]
pub enum EmberFlowMode {
    Canonical,
    Projected,
}

impl EmberFlowMode {
    /// The configuration name of the mode.
    pub fn as_str(self) -> (r: &'static str)
        ensures
            r@ == (if self is Canonical {
                "canonical"@
            } else {
                "projected"@
            }),
    {
        match self {
            EmberFlowMode::Canonical => "canonical",
            EmberFlowMode::Projected => "projected",
        }
    }

    /// The mode a configuration name stands for, if any.
    pub fn from_str(value: &str) -> (r: Option<EmberFlowMode>)
        ensures
            r == (if value@ == "canonical"@ {
                Some(EmberFlowMode::Canonical)
            } else if value@ == "projected"@ {
                Some(EmberFlowMode::Projected)
            } else {
                None
            }),
    {
        if str_eq(value, "canonical") {
            Some(EmberFlowMode::Canonical)
        } else if str_eq(value, "projected") {
            Some(EmberFlowMode::Projected)
        } else {
            None
        }
    }
}

/// The pieces of a path between its slashes, empty pieces included.
pub open spec fn path_pieces(s: Seq<char>) -> Seq<Seq<char>>
    decreases s.len(),
{
    if s.len() == 0 {
        seq![Seq::empty()]
    } else {
        let p = path_pieces(s.drop_last());
        if s.last() == '/' {
            p.push(Seq::empty())
        } else {
            p.update(p.len() - 1, p.last().push(s.last()))
        }
    }
}

/// The names left after walking the pieces: empty pieces and `.` are skipped, `..` drops the
/// name before it (when there is one), any other piece is a name.
pub open spec fn walk_pieces(pieces: Seq<Seq<char>>) -> Seq<Seq<char>>
    decreases pieces.len(),
{
    if pieces.len() == 0 {
        Seq::empty()
    } else {
        let names = walk_pieces(pieces.drop_last());
        let x = pieces.last();
        if x.len() == 0 || x == "."@ {
            names
        } else if x == ".."@ {
            if names.len() > 0 {
                names.drop_last()
            } else {
                names
            }
        } else {
            names.push(x)
        }
    }
}

/// Names joined by slashes.
pub open spec fn join_names(names: Seq<Seq<char>>) -> Seq<char>
    decreases names.len(),
{
    if names.len() == 0 {
        Seq::empty()
    } else if names.len() == 1 {
        names[0]
    } else {
        join_names(names.drop_last()) + "/"@ + names.last()
    }
}

/// A path with `.` and `..` resolved lexically, without touching the filesystem; a leading
/// slash is kept.
pub open spec fn normalized_path(s: Seq<char>) -> Seq<char> {
    let names = join_names(walk_pieces(path_pieces(s)));
    if s.len() > 0 && s[0] == '/' {
        "/"@ + names
    } else {
        names
    }
}

proof fn lemma_path_pieces_len(s: Seq<char>)
    ensures
        path_pieces(s).len() >= 1,
    decreases s.len(),
{
    if s.len() > 0 {
        lemma_path_pieces_len(s.drop_last());
    }
}

fn join_names_exec(names: &Vec<String>) -> (r: String)
    ensures
        r@ == join_names(names@.map_values(|n: String| n@)),
{
    let ghost ns = names@.map_values(|n: String| n@);
    let mut out = String::new();
    let mut i: usize = 0;
    while i < names.len()
        invariant
            i <= names@.len(),
            ns == names@.map_values(|n: String| n@),
            out@ == join_names(ns.take(i as int)),
        decreases names@.len() - i,
    {
        proof {
            assert(ns.take(i + 1).drop_last() =~= ns.take(i as int));
            assert(ns.take(i + 1).last() == names@[i as int]@);
        }
        if i > 0 {
            out.append("/");
        }
        out.append(names[i].as_str());
        proof {
            reveal_strlit("/");
            if i == 0 {
                assert(ns.take(1) =~= seq![names@[0]@]);
                assert(out@ =~= join_names(ns.take(1)));
            } else {
                assert(out@ =~= join_names(ns.take(i + 1)));
            }
        }
        i += 1;
    }
    proof {
        assert(ns.take(names@.len() as int) =~= ns);
    }
    out
}

/// Applies one piece to the names walked so far.
fn walk_piece(names: &mut Vec<String>, piece: String)
    ensures
        final(names)@.map_values(|n: String| n@) == ({
            let st = old(names)@.map_values(|n: String| n@);
            let x = piece@;
            if x.len() == 0 || x == "."@ {
                st
            } else if x == ".."@ {
                if st.len() > 0 {
                    st.drop_last()
                } else {
                    st
                }
            } else {
                st.push(x)
            }
        }),
{
    let ghost st = names@.map_values(|n: String| n@);
    if piece.unicode_len() == 0 || str_eq(piece.as_str(), ".") {
        proof {
            reveal_strlit(".");
            reveal_strlit("..");
        }
    } else if str_eq(piece.as_str(), "..") {
        proof {
            reveal_strlit(".");
            reveal_strlit("..");
        }
        if names.len() > 0 {
            names.pop();
            proof {
                assert(names@.map_values(|n: String| n@) =~= st.drop_last());
            }
        }
    } else {
        proof {
            reveal_strlit(".");
            reveal_strlit("..");
        }
        names.push(piece);
        proof {
            assert(names@.map_values(|n: String| n@) =~= st.push(piece@));
        }
    }
}

/// Resolves `.` and `..` in a path lexically, without touching the filesystem, as paths are
/// normalised when they are joined.
pub fn normalize_path(path: &str) -> (r: String)
    ensures
        r@ == normalized_path(path@),
{
    let n = path.unicode_len();
    let mut names: Vec<String> = Vec::new();
    let mut cur = String::new();
    let mut i: usize = 0;
    proof {
        assert(path@.take(0) =~= Seq::<char>::empty());
    }
    while i < n
        invariant
            n == path@.len(),
            i <= n,
            path_pieces(path@.take(i as int)).len() >= 1,
            cur@ == path_pieces(path@.take(i as int)).last(),
            names@.map_values(|x: String| x@) == walk_pieces(
                path_pieces(path@.take(i as int)).drop_last(),
            ),
        decreases n - i,
    {
        let c = path.get_char(i);
        let ghost p = path_pieces(path@.take(i as int));
        proof {
            assert(path@.take(i + 1).drop_last() =~= path@.take(i as int));
            assert(path@.take(i + 1).last() == c);
            lemma_path_pieces_len(path@.take(i + 1));
        }
        if c == '/' {
            let piece = cur;
            cur = String::new();
            walk_piece(&mut names, piece);
            proof {
                let q = path_pieces(path@.take(i + 1));
                assert(q == p.push(Seq::empty()));
                assert(q.drop_last() =~= p);
                assert(p =~= p.drop_last().push(p.last()));
            }
        } else {
            cur.append(path.substring_char(i, i + 1));
            proof {
                let q = path_pieces(path@.take(i + 1));
                assert(q == p.update(p.len() - 1, p.last().push(c)));
                assert(q.drop_last() =~= p.drop_last());
                assert(path@.subrange(i as int, i + 1) =~= seq![c]);
                assert(cur@ =~= q.last());
            }
        }
        i += 1;
    }
    let ghost p = path_pieces(path@.take(n as int));
    walk_piece(&mut names, cur);
    proof {
        assert(path@.take(n as int) =~= path@);
        assert(p =~= p.drop_last().push(p.last()));
    }
    let joined = join_names_exec(&names);
    if n > 0 && path.get_char(0) == '/' {
        cat("/", joined.as_str())
    } else {
        joined
    }
}

/// The parent of a normalised path: everything before its last slash, or `/` for a name
/// right under the root; a path without a slash has no parent.
pub open spec fn parent_path(s: Seq<char>) -> Option<Seq<char>> {
    if exists|i: int| 0 <= i < s.len() && s[i] == '/' {
        let i = choose|i: int|
            0 <= i < s.len() && s[i] == '/' && forall|j: int| i < j < s.len() ==> s[j] != '/';
        if i == 0 {
            if s.len() == 1 {
                None
            } else {
                Some("/"@)
            }
        } else {
            Some(s.take(i))
        }
    } else if s.len() > 0 {
        Some(Seq::empty())
    } else {
        None
    }
}

/// The last name of a path.
pub open spec fn file_name(s: Seq<char>) -> Seq<char> {
    let names = walk_pieces(path_pieces(s));
    if names.len() > 0 {
        names.last()
    } else {
        Seq::empty()
    }
}

/// The layout of an EmberFlow project: where the workspace and the project are, where the
/// state and its database live, and whether projected files are written.
#[derive(Debug, Clone, PartialEq, Eq)]
pub struct EmberFlowProjectLayout {
    pub workspace_root: String,
    pub project_root: String,
    pub state_root: String,
    pub db_path: String,
    pub mode: EmberFlowMode,
    pub config_path: Option<String>,
}

/// What a configuration file says: the projection mode and a project root override.
#[derive(Debug, Clone, PartialEq, Eq)]
pub struct EmberFlowConfig {
    pub mode: Option<EmberFlowMode>,
    pub root: Option<String>,
    pub present: bool,
}

impl EmberFlowConfig {
    /// The configuration used when there is no configuration file.
    pub fn absent() -> (r: EmberFlowConfig)
        ensures
            r.mode is None,
            r.root is None,
            !r.present,
    {
        EmberFlowConfig { mode: None, root: None, present: false }
    }

    /// Reads a configuration file's text: an optional `mode` (`canonical` or `projected`) and
    /// an optional `root`. Text that is not JSON is refused, and so is an unknown mode.
    pub fn parse(text: &str) -> (r: Result<EmberFlowConfig, EmberFlowError>)
        ensures
            !json_parses(text@) ==> (r matches Err(e) && e matches EmberFlowError::Json(m)
                && m@ == json_error_message(text@)),
            json_parses(text@) ==> ({
                let mode = json_top_level_string(text@, "mode"@);
                &&& (mode is Some && mode->0 != "canonical"@ && mode->0 != "projected"@) ==> (
                r matches Err(e) && is_unsupported(e, "mode"@, mode->0))
                &&& r is Ok <==> (mode is Some ==> (mode->0 == "canonical"@ || mode->0
                    == "projected"@))
                &&& r matches Ok(c) ==> {
                    &&& c.present
                    &&& c.mode == (match mode {
                        Some(m) => if m == "canonical"@ {
                            Some(EmberFlowMode::Canonical)
                        } else {
                            Some(EmberFlowMode::Projected)
                        },
                        None => None,
                    })
                    &&& opt_view(c.root) == json_top_level_string(text@, "root"@)
                }
            }),
    {
        if let Some(message) = json_parse_error(text) {
            return Err(EmberFlowError::Json(message));
        }
        let mode = match json_text_get_str(text, "mode") {
            Some(m) => match EmberFlowMode::from_str(m.as_str()) {
                Some(mode) => Some(mode),
                None => {
                    return Err(unsupported("mode", m.as_str()));
                },
            },
            None => None,
        };
        let root = json_text_get_str(text, "root");
        Ok(EmberFlowConfig { mode, root, present: true })
    }
}

/// A root override from a configuration: an absolute one is taken as it is, a relative one
/// is taken from `base_root`; either is normalised.
pub open spec fn resolved_root(base_root: Seq<char>, root_override: Seq<char>) -> Seq<char> {
    if root_override.len() > 0 && root_override[0] == '/' {
        normalized_path(root_override)
    } else if base_root.len() > 0 && base_root.last() == '/' {
        normalized_path(base_root + root_override)
    } else {
        normalized_path(base_root + "/"@ + root_override)
    }
}

/// Resolves a root override against the directory holding the configuration.
pub fn resolve_root_override(base_root: &str, root_override: &str) -> (r: String)
    ensures
        r@ == resolved_root(base_root@, root_override@),
{
    if root_override.unicode_len() > 0 && root_override.get_char(0) == '/' {
        normalize_path(root_override)
    } else {
        let n = base_root.unicode_len();
        if n > 0 && base_root.get_char(n - 1) == '/' {
            let joined = cat(base_root, root_override);
            normalize_path(joined.as_str())
        } else {
            let joined = cat3(base_root, "/", root_override);
            normalize_path(joined.as_str())
        }
    }
}

/// Joins a name onto a directory path.
pub open spec fn joined_path(dir: Seq<char>, name: Seq<char>) -> Seq<char> {
    if dir.len() == 0 {
        name
    } else if dir.last() == '/' {
        dir + name
    } else {
        dir + "/"@ + name
    }
}

/// Joins a name onto a directory path.
pub fn join_path(dir: &str, name: &str) -> (r: String)
    ensures
        r@ == joined_path(dir@, name@),
{
    let n = dir.unicode_len();
    if n == 0 {
        owned(name)
    } else if dir.get_char(n - 1) == '/' {
        cat(dir, name)
    } else {
        cat3(dir, "/", name)
    }
}

/// `i` is where the last slash of `s` stands.
pub open spec fn is_last_slash(s: Seq<char>, i: int) -> bool {
    &&& 0 <= i < s.len()
    &&& s[i] == '/'
    &&& forall|j: int| i < j < s.len() ==> s[j] != '/'
}

/// Where the last slash of a text stands, if it has one.
pub open spec fn last_slash_spec(s: Seq<char>) -> Option<int> {
    if exists|i: int| is_last_slash(s, i) {
        Some(choose|i: int| is_last_slash(s, i))
    } else {
        None
    }
}

/// The directory that holds a database file, as `Path::parent` gives it: the text before its
/// last slash (`/` for a file at the root), the empty path for a bare file name, and the root
/// itself for `/`.
pub open spec fn state_root_of(db: Seq<char>) -> Seq<char> {
    match last_slash_spec(db) {
        Some(i) => if i == 0 {
            if db.len() == 1 {
                db
            } else {
                "/"@
            }
        } else {
            db.subrange(0, i)
        },
        None => Seq::empty(),
    }
}

/// The project root for a state root: the directory above it when it is named `.emberflow`
/// (the empty path above a bare `.emberflow`), else the state root itself.
pub open spec fn project_root_of(state: Seq<char>) -> Seq<char> {
    match last_slash_spec(state) {
        Some(i) => if state.subrange(i + 1, state.len() as int) == ".emberflow"@ {
            if i == 0 {
                if state.len() == 1 {
                    state
                } else {
                    "/"@
                }
            } else {
                state.subrange(0, i)
            }
        } else {
            state
        },
        None => if state == ".emberflow"@ {
            Seq::empty()
        } else {
            state
        },
    }
}

/// The layout of a project given by its database path (see `from_db_path`).
pub open spec fn db_layout_is(l: EmberFlowProjectLayout, db_path: Seq<char>) -> bool {
    &&& l.db_path@ == normalized_path(db_path)
    &&& l.state_root@ == state_root_of(l.db_path@)
    &&& l.project_root@ == project_root_of(l.state_root@)
    &&& l.workspace_root@ == l.project_root@
    &&& l.mode == EmberFlowMode::Canonical
    &&& l.config_path is None
}

/// The index of the last slash of a text, if any.
fn last_slash(s: &str) -> (r: Option<usize>)
    ensures
        match r {
            Some(i) => i < s@.len() && s@[i as int] == '/' && forall|j: int|
                i < j < s@.len() ==> s@[j] != '/',
            None => forall|j: int| 0 <= j < s@.len() ==> s@[j] != '/',
        },
        match r {
            Some(i) => last_slash_spec(s@) == Some(i as int),
            None => last_slash_spec(s@) is None,
        },
{
    let n = s.unicode_len();
    let mut i: usize = n;
    while i > 0
        invariant
            i <= n,
            n == s@.len(),
            forall|j: int| i <= j < n ==> s@[j] != '/',
        decreases i,
    {
        if s.get_char(i - 1) == '/' {
            proof {
                assert(is_last_slash(s@, i - 1));
                let k = choose|k: int| is_last_slash(s@, k);
                assert(k == i - 1) by {
                    if k < i - 1 {
                        assert(s@[i - 1] != '/');
                    }
                    if k > i - 1 {
                        assert(s@[k] != '/');
                    }
                }
            }
            return Some(i - 1);
        }
        i -= 1;
    }
    None
}

impl EmberFlowProjectLayout {
    /// The layout given by a database path: the state root is the directory holding the
    /// database, and the project root is the directory above it when that is `.emberflow`,
    /// else the state root itself. Projection is canonical and there is no configuration.
    pub fn from_db_path(db_path: &str) -> (r: Result<EmberFlowProjectLayout, EmberFlowError>)
        ensures
            r matches Ok(l) && db_layout_is(l, db_path@),
    {
        let db = normalize_path(db_path);
        let state_root = match last_slash(db.as_str()) {
            Some(0) => {
                if db.unicode_len() == 1 {
                    db.clone()
                } else {
                    owned("/")
                }
            },
            Some(i) => db.as_str().substring_char(0, i).to_owned(),
            None => String::new(),
        };
        let project_root = match last_slash(state_root.as_str()) {
            Some(i) => {
                let n = state_root.unicode_len();
                let name = state_root.as_str().substring_char(i + 1, n);
                if str_eq(name, ".emberflow") {
                    if i == 0 {
                        if n == 1 {
                            state_root.clone()
                        } else {
                            owned("/")
                        }
                    } else {
                        state_root.as_str().substring_char(0, i).to_owned()
                    }
                } else {
                    state_root.clone()
                }
            },
            None => if str_eq(state_root.as_str(), ".emberflow") {
                String::new()
            } else {
                state_root.clone()
            },
        };
        Ok(
            EmberFlowProjectLayout {
                workspace_root: project_root.clone(),
                project_root,
                state_root,
                db_path: db,
                mode: EmberFlowMode::Canonical,
                config_path: None,
            },
        )
    }

    /// The layout of a discovered workspace: `config_dir` holds the configuration (read as
    /// `config`), `default_state_root` is where the state goes unless the configuration moves
    /// the project root.
    pub fn from_discovery(
        workspace_root: &str,
        config_dir: &str,
        default_state_root: &str,
        config: EmberFlowConfig,
    ) -> (r: EmberFlowProjectLayout)
        ensures
            r.workspace_root@ == workspace_root@,
            r.project_root@ == (match config.root {
                Some(root) => resolved_root(config_dir@, root@),
                None => default_state_root@,
            }),
            r.state_root@ == joined_path(r.project_root@, ".emberflow"@),
            r.db_path@ == joined_path(r.state_root@, "emberflow.db"@),
            r.mode == (match config.mode {
                Some(m) => m,
                None => EmberFlowMode::Canonical,
            }),
            config.present ==> (r.config_path matches Some(p) && p@ == joined_path(
                config_dir@,
                "emberflow.config.json"@,
            )),
            !config.present ==> r.config_path is None,
    {
        let project_root = match &config.root {
            Some(root) => resolve_root_override(config_dir, root.as_str()),
            None => owned(default_state_root),
        };
        let state_root = join_path(project_root.as_str(), ".emberflow");
        let db_path = join_path(state_root.as_str(), "emberflow.db");
        let config_path = if config.present {
            Some(join_path(config_dir, "emberflow.config.json"))
        } else {
            None
        };
        EmberFlowProjectLayout {
            workspace_root: owned(workspace_root),
            project_root,
            state_root,
            db_path,
            mode: match config.mode {
                Some(m) => m,
                None => EmberFlowMode::Canonical,
            },
            config_path,
        }
    }

    /// The projected runtime status file, relative to the project root.
    pub fn runtime_status_path(&self) -> (r: &'static str)
        ensures
            r@ == runtime_status_path_spec(),
    {
        projected_runtime_status_path()
    }

    /// The prefix of projected track directories, relative to the project root.
    pub fn track_directory_prefix(&self) -> (r: &'static str)
        ensures
            r@ == track_directory_prefix_spec(),
    {
        projected_track_directory_prefix()
    }
}

} // verus!
