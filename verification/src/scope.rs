//! Scratch scopes and the names derived from them.

use vstd::prelude::*;
use crate::text::{chars_of, string_from_chars};

verus! {

/// Whether a scratch pane belongs to one workspace or to the whole Herdr session.
#[derive(Debug, Clone, Copy, PartialEq, Eq, Structural)]
pub enum Scope {
    Workspace,
    Session,
}

/// The view of an optional string slice.
pub open spec fn opt_str_view(value: Option<&str>) -> Option<Seq<char>> {
    match value {
        Some(s) => Some(s@),
        None => None,
    }
}

/// The view of an optional owned string.
pub open spec fn opt_string_view(value: Option<String>) -> Option<Seq<char>> {
    match value {
        Some(s) => Some(s@),
        None => None,
    }
}

pub open spec fn scope_name(scope: Scope) -> Seq<char> {
    match scope {
        Scope::Workspace => "workspace"@,
        Scope::Session => "session"@,
    }
}

pub open spec fn scratch_label_of(scope: Scope) -> Seq<char> {
    match scope {
        Scope::Workspace => "⌂ scratch workspace"@,
        Scope::Session => "⌂ scratch session"@,
    }
}

impl Scope {
    /// The scope's name as written on command lines and in environment variables.
    pub fn as_str(self) -> (name: &'static str)
        ensures
            name@ == scope_name(self),
    {
        match self {
            Scope::Workspace => "workspace",
            Scope::Session => "session",
        }
    }
}

/// The pane label that marks a scratch pane of the given scope.
pub fn scratch_label(scope: Scope) -> (label: &'static str)
    ensures
        label@ == scratch_label_of(scope),
{
    match scope {
        Scope::Workspace => "⌂ scratch workspace",
        Scope::Session => "⌂ scratch session",
    }
}

/// The identity of the Herdr session a session scope belongs to: its server id
/// when Herdr gives one, else the path of its socket.
pub open spec fn session_identity_of(server_id: Option<Seq<char>>, socket_path: Option<Seq<char>>) -> Option<Seq<char>> {
    match server_id {
        Some(id) => Some(id),
        None => socket_path,
    }
}

pub fn session_identity(server_id: Option<&str>, socket_path: Option<&str>) -> (identity: Option<String>)
    ensures
        opt_string_view(identity) == session_identity_of(opt_str_view(server_id), opt_str_view(socket_path)),
{
    match server_id {
        Some(id) => Some(id.to_owned()),
        None => match socket_path {
            Some(path) => Some(path.to_owned()),
            None => None,
        },
    }
}

/// Characters that a session name keeps as they are.
pub open spec fn is_name_char(c: char) -> bool {
    ||| ('a' as u32 <= c as u32 && c as u32 <= 'z' as u32)
    ||| ('A' as u32 <= c as u32 && c as u32 <= 'Z' as u32)
    ||| ('0' as u32 <= c as u32 && c as u32 <= '9' as u32)
    ||| c == '_'
    ||| c == '-'
}

/// Replaces each run of characters that are not name characters by one `-`.
pub open spec fn collapse_separators(s: Seq<char>) -> Seq<char>
    decreases s.len(),
{
    if s.len() == 0 {
        Seq::empty()
    } else {
        let prev = collapse_separators(s.drop_last());
        if is_name_char(s.last()) {
            prev.push(s.last())
        } else if s.len() >= 2 && !is_name_char(s[s.len() - 2]) {
            prev
        } else {
            prev.push('-')
        }
    }
}

pub open spec fn trim_leading_dashes(s: Seq<char>) -> Seq<char>
    decreases s.len(),
{
    if s.len() > 0 && s[0] == '-' {
        trim_leading_dashes(s.drop_first())
    } else {
        s
    }
}

pub open spec fn trim_trailing_dashes(s: Seq<char>) -> Seq<char>
    decreases s.len(),
{
    if s.len() > 0 && s.last() == '-' {
        trim_trailing_dashes(s.drop_last())
    } else {
        s
    }
}

/// A string made safe for tmux session and file names.
pub open spec fn sanitized(s: Seq<char>) -> Seq<char> {
    let t = trim_trailing_dashes(trim_leading_dashes(collapse_separators(s)));
    if t.len() == 0 {
        "default"@
    } else {
        t
    }
}

pub open spec fn session_name_of(
    scope: Scope,
    workspace_id: Option<Seq<char>>,
    server_id: Option<Seq<char>>,
) -> Seq<char> {
    match scope {
        Scope::Workspace => "workspace-"@ + sanitized(
            match workspace_id {
                Some(w) => w,
                None => "default"@,
            },
        ),
        Scope::Session => "session-"@ + sanitized(
            match server_id {
                Some(s) => s,
                None => "default"@,
            },
        ),
    }
}

fn is_name_char_exec(c: char) -> (keep: bool)
    ensures
        keep == is_name_char(c),
{
    ('a' <= c && c <= 'z') || ('A' <= c && c <= 'Z') || ('0' <= c && c <= '9') || c == '_'
        || c == '-'
}

fn sanitize(input: &str) -> (out: String)
    ensures
        out@ == sanitized(input@),
{
    let chars = chars_of(input);
    let mut out: Vec<char> = Vec::new();
    let mut last_dash = false;
    let mut i: usize = 0;
    while i < chars.len()
        invariant
            i <= chars@.len(),
            out@ == collapse_separators(chars@.take(i as int)),
            last_dash == (i > 0 && !is_name_char(chars@[i - 1])),
        decreases chars@.len() - i,
    {
        let c = chars[i];
        assert(chars@.take(i + 1).drop_last() == chars@.take(i as int));
        if is_name_char_exec(c) {
            out.push(c);
            last_dash = false;
        } else if !last_dash {
            out.push('-');
            last_dash = true;
        }
        i = i + 1;
    }
    assert(chars@.take(chars@.len() as int) == chars@);
    let ghost collapsed = out@;
    let n = out.len();
    let mut start: usize = 0;
    assert(collapsed.subrange(0, n as int) == collapsed);
    while start < n && out[start] == '-'
        invariant
            start <= n == out@.len(),
            out@ == collapsed,
            trim_leading_dashes(collapsed) == trim_leading_dashes(collapsed.subrange(start as int, n as int)),
        decreases n - start,
    {
        assert(collapsed.subrange(start as int, n as int).drop_first() == collapsed.subrange(start + 1, n as int));
        start = start + 1;
    }
    assert(collapsed.subrange(0, n as int) == collapsed);
    let ghost lead = collapsed.subrange(start as int, n as int);
    assert(trim_leading_dashes(collapsed) == lead);
    let mut end: usize = n;
    while end > start && out[end - 1] == '-'
        invariant
            start <= end <= n == out@.len(),
            out@ == collapsed,
            lead == collapsed.subrange(start as int, n as int),
            trim_trailing_dashes(lead) == trim_trailing_dashes(collapsed.subrange(start as int, end as int)),
        decreases end - start,
    {
        assert(collapsed.subrange(start as int, end as int).drop_last() == collapsed.subrange(start as int, end - 1));
        end = end - 1;
    }
    if start == end {
        String::from_str("default")
    } else {
        string_from_chars(&out, start, end)
    }
}

/// The tmux session name of a scratch scope.
pub fn session_name(scope: Scope, workspace_id: Option<&str>, server_id: Option<&str>) -> (name:
    String)
    ensures
        name@ == session_name_of(scope, opt_str_view(workspace_id), opt_str_view(server_id)),
{
    match scope {
        Scope::Workspace => {
            let id = match workspace_id {
                Some(w) => w,
                None => "default",
            };
            let clean = sanitize(id);
            String::from_str("workspace-").concat(clean.as_str())
        },
        Scope::Session => {
            let id = match server_id {
                Some(s) => s,
                None => "default",
            };
            let clean = sanitize(id);
            String::from_str("session-").concat(clean.as_str())
        },
    }
}

proof fn lemma_collapse_name_chars(s: Seq<char>)
    ensures
        forall|i: int| 0 <= i < collapse_separators(s).len() ==> is_name_char(#[trigger] collapse_separators(s)[i]),
    decreases s.len(),
{
    if s.len() > 0 {
        lemma_collapse_name_chars(s.drop_last());
        let prev = collapse_separators(s.drop_last());
        let cur = collapse_separators(s);
        assert forall|i: int| 0 <= i < cur.len() implies is_name_char(#[trigger] cur[i]) by {
            if i < prev.len() {
                assert(cur[i] == prev[i]);
            }
        }
    }
}

proof fn lemma_trim_leading(x: Seq<char>)
    requires
        forall|i: int| 0 <= i < x.len() ==> is_name_char(#[trigger] x[i]),
    ensures
        forall|i: int| 0 <= i < trim_leading_dashes(x).len() ==> is_name_char(#[trigger] trim_leading_dashes(x)[i]),
        trim_leading_dashes(x).len() > 0 ==> trim_leading_dashes(x)[0] != '-',
    decreases x.len(),
{
    if x.len() > 0 && x[0] == '-' {
        lemma_trim_leading(x.drop_first());
    }
}

proof fn lemma_trim_trailing(x: Seq<char>)
    requires
        forall|i: int| 0 <= i < x.len() ==> is_name_char(#[trigger] x[i]),
    ensures
        trim_trailing_dashes(x).len() <= x.len(),
        forall|i: int| 0 <= i < trim_trailing_dashes(x).len() ==> #[trigger] trim_trailing_dashes(x)[i] == x[i],
        forall|i: int| 0 <= i < trim_trailing_dashes(x).len() ==> is_name_char(#[trigger] trim_trailing_dashes(x)[i]),
        trim_trailing_dashes(x).len() > 0 ==> trim_trailing_dashes(x).last() != '-',
    decreases x.len(),
{
    if x.len() > 0 && x.last() == '-' {
        lemma_trim_trailing(x.drop_last());
    }
}

/// A sanitized name is never empty, holds only ASCII letters, digits, `_` and
/// `-`, and neither starts nor ends with `-`: it can name a tmux session and a
/// file as it is.
pub proof fn sanitized_names_are_file_safe(s: Seq<char>)
    ensures
        sanitized(s).len() > 0,
        forall|i: int| 0 <= i < sanitized(s).len() ==> is_name_char(#[trigger] sanitized(s)[i]),
        sanitized(s)[0] != '-',
        sanitized(s).last() != '-',
{
    reveal_strlit("default");
    let c = collapse_separators(s);
    lemma_collapse_name_chars(s);
    let l = trim_leading_dashes(c);
    lemma_trim_leading(c);
    lemma_trim_trailing(l);
    let t = trim_trailing_dashes(l);
    if t.len() > 0 {
        assert(t[0] == l[0]);
    } else {
        assert(sanitized(s) == "default"@);
        assert forall|i: int| 0 <= i < sanitized(s).len() implies is_name_char(#[trigger] sanitized(s)[i]) by {}
    }
}

/// A workspace scratch session and a session scratch session never share a
/// tmux session name, whatever ids they are given.
pub proof fn scopes_never_share_a_session(
    workspace_id: Option<Seq<char>>,
    server_id: Option<Seq<char>>,
    other_workspace_id: Option<Seq<char>>,
    other_server_id: Option<Seq<char>>,
)
    ensures
        session_name_of(Scope::Workspace, workspace_id, server_id) != session_name_of(
            Scope::Session,
            other_workspace_id,
            other_server_id,
        ),
{
    reveal_strlit("workspace-");
    reveal_strlit("session-");
    let a = session_name_of(Scope::Workspace, workspace_id, server_id);
    let b = session_name_of(Scope::Session, other_workspace_id, other_server_id);
    assert(a[0] == 'w');
    assert(b[0] == 's');
}

/// A character of a plain id: an ASCII letter of either case, a digit, `_` or `-`.
pub open spec fn is_plain_id_char(c: char) -> bool {
    ||| ('a' <= c && c <= 'z')
    ||| ('A' <= c && c <= 'Z')
    ||| ('0' <= c && c <= '9')
    ||| c == '_'
    ||| c == '-'
}

/// An id made of plain characters only, that neither starts nor ends with `-`.
pub open spec fn is_plain_id(id: Seq<char>) -> bool {
    &&& id.len() > 0
    &&& forall|i: int| 0 <= i < id.len() ==> is_plain_id_char(#[trigger] id[i])
    &&& id[0] != '-'
    &&& id.last() != '-'
}

proof fn lemma_collapse_keeps_plain(s: Seq<char>)
    requires
        forall|i: int| 0 <= i < s.len() ==> is_plain_id_char(#[trigger] s[i]),
    ensures
        collapse_separators(s) == s,
    decreases s.len(),
{
    if s.len() > 0 {
        lemma_collapse_keeps_plain(s.drop_last());
        assert(is_plain_id_char(s[s.len() - 1]));
        assert(s.drop_last().push(s.last()) =~= s);
    }
}

/// Sanitizing leaves a plain id as it is, so ids of that form that differ give
/// different tmux session and state-file names.
pub proof fn plain_ids_are_kept(scope: Scope, id: Seq<char>, other: Seq<char>)
    requires
        is_plain_id(id),
    ensures
        sanitized(id) == id,
        scope == Scope::Workspace ==> session_name_of(scope, Some(id), None) == "workspace-"@ + id,
        scope == Scope::Session ==> session_name_of(scope, None, Some(id)) == "session-"@ + id,
        is_plain_id(other) && other != id ==> session_name_of(scope, Some(id), Some(id)) != session_name_of(
            scope,
            Some(other),
            Some(other),
        ),
{
    lemma_collapse_keeps_plain(id);
    assert(trim_leading_dashes(id) == id);
    assert(trim_trailing_dashes(id) == id);
    if is_plain_id(other) && other != id {
        lemma_collapse_keeps_plain(other);
        assert(trim_leading_dashes(other) == other);
        assert(trim_trailing_dashes(other) == other);
        let p = match scope {
            Scope::Workspace => "workspace-"@,
            Scope::Session => "session-"@,
        };
        assert(session_name_of(scope, Some(id), Some(id)) == p + id);
        assert(session_name_of(scope, Some(other), Some(other)) == p + other);
        if p + id == p + other {
            assert((p + id).subrange(p.len() as int, (p + id).len() as int) =~= id);
            assert((p + other).subrange(p.len() as int, (p + other).len() as int) =~= other);
        }
    }
}

} // verus!
