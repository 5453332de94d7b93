//! Resolution of a flatpak-installed application: finding the directory
//! that holds the Electron app's files, the path of its installation root,
//! and the executable path hidden behind the installation's manifest and
//! launch-wrapper script.
//!
//! The surrounding binary reads the installation's file tree, its manifest
//! and its wrapper script; the decisions over that data are made here.

use crate::entries::EntryKind;
use vstd::prelude::*;
use vstd::string::StrSliceExecFns;
use vstd::string::StringExecFns;

verus! {

/// One node of an installation's file tree: a directory entry together with
/// the entries below it (empty unless the node is a directory).
pub struct FsNode {
    pub name: String,
    pub kind: EntryKind,
    pub children: Vec<FsNode>,
}

/// Filename that marks the directory holding an Electron application's
/// files.
pub open spec fn pak_name() -> Seq<char> {
    "chrome_100_percent.pak"@
}

/// Whether a node is the marker file itself.
pub open spec fn is_pak_file(n: FsNode) -> bool {
    n.kind is File && n.name@ == pak_name()
}

/// Path of the first marker file below `dir`, in listing order, as name
/// components from `dir` (exclusive) down to the file (inclusive); `None`
/// when no marker file exists below `dir`. A file is checked before later
/// siblings are, and a subdirectory is searched in full before the walk
/// moves on.
pub open spec fn pak_path(dir: FsNode) -> Option<Seq<Seq<char>>>
    decreases dir, dir.children@.len() + 1,
{
    pak_path_from(dir, 0)
}

/// [`pak_path`], restricted to the children of `dir` from index `i` on.
pub open spec fn pak_path_from(dir: FsNode, i: int) -> Option<Seq<Seq<char>>>
    decreases dir, dir.children@.len() - i,
{
    if i < 0 || i >= dir.children@.len() {
        None
    } else {
        let c = dir.children@[i];
        if is_pak_file(c) {
            Some(seq![c.name@])
        } else if c.kind is Dir && pak_path(c) is Some {
            Some(seq![c.name@] + pak_path(c)->0)
        } else {
            pak_path_from(dir, i + 1)
        }
    }
}

/// Searches the tree below `dir` for the Electron marker file and returns
/// the path to the first one found, as name components relative to `dir`.
pub fn find_chrome_pak(dir: &FsNode) -> (r: Option<Vec<String>>)
    ensures
        match r {
            Some(p) => pak_path(*dir) == Some(p.deep_view()) && p@.len() >= 1,
            None => pak_path(*dir) is None,
        },
    decreases *dir,
{
    let pak = String::from_str("chrome_100_percent.pak");
    let n = dir.children.len();
    let mut i: usize = 0;
    while i < n
        invariant
            i <= n,
            n == dir.children@.len(),
            pak@ == pak_name(),
            pak_path_from(*dir, 0) == pak_path_from(*dir, i as int),
        decreases n - i,
    {
        let c = &dir.children[i];
        match c.kind {
            EntryKind::File => {
                if c.name == pak {
                    let mut path: Vec<String> = Vec::new();
                    path.push(c.name.clone());
                    proof {
                        assert(path.deep_view() =~= seq![c.name@]);
                    }
                    return Some(path);
                }
            },
            EntryKind::Dir => {
                proof {
                    assert(decreases_to!(*dir => dir.children));
                    assert(decreases_to!(dir.children => dir.children@));
                    assert(decreases_to!(dir.children@ => dir.children@[i as int]));
                }
                let sub = find_chrome_pak(c);
                if let Some(mut path) = sub {
                    let ghost sub_path = path.deep_view();
                    path.insert(0, c.name.clone());
                    proof {
                        assert(path.deep_view() =~= seq![c.name@] + sub_path);
                    }
                    return Some(path);
                }
            },
            EntryKind::Other => {},
        }
        i += 1;
    }
    None
}

/// Resolution of a flatpak installation's application directory: `None`
/// when the installation's files root does not exist; otherwise the
/// components, relative to that root, of the directory that holds the
/// Electron marker file. The caller has already checked that a marker file
/// exists below an existing root.
pub fn get_flatpak_dir(files_root: Option<&FsNode>) -> (r: Option<Vec<String>>)
    requires
        match files_root {
            Some(t) => pak_path(*t) is Some,
            None => true,
        },
    ensures
        match files_root {
            Some(t) => r is Some && r->0.deep_view() == pak_path(*t)->0.drop_last(),
            None => r is None,
        },
{
    match files_root {
        None => None,
        Some(t) => {
            let found = find_chrome_pak(t);
            match found {
                Some(mut path) => {
                    let ghost full = path.deep_view();
                    let _ = path.pop();
                    proof {
                        assert(path.deep_view() =~= full.drop_last());
                    }
                    Some(path)
                },
                None => {
                    proof {
                        assert(false);
                    }
                    None
                },
            }
        },
    }
}

/// The fixed location of a flatpak installation's files root, formed from
/// the application identifier.
pub fn flatpak_files_root(id: &str) -> (r: String)
    ensures
        r@ == "/var/lib/flatpak/app/"@ + id@ + "/current/active/files/"@,
{
    String::from_str("/var/lib/flatpak/app/").concat(id).concat("/current/active/files/")
}

/// The string value of the top-level "command" member of a manifest
/// document; nothing when the text is not a JSON object, the member is
/// missing, or its value is not a string. The value is a function of the
/// document text alone; it is left abstract here.
pub uninterp spec fn manifest_command_of(text: Seq<char>) -> Option<Seq<char>>;

/// Relies on serde_json::from_str, serde_json::Value::get and
/// serde_json::Value::as_str: parsing the document and reading the
/// "command" member's string value, a computation from the document text
/// alone.
#[verifier::external_body]
fn json_command(text: &str) -> (r: Option<String>)
    ensures
        match r {
            Some(s) => manifest_command_of(text@) == Some(s@),
            None => manifest_command_of(text@) is None,
        },
{
    let value: serde_json::Value = match serde_json::from_str(text) {
        Ok(v) => v,
        Err(_) => return None,
    };
    match value.get("command").and_then(|c| c.as_str()) {
        Some(c) => Some(c.to_owned()),
        None => None,
    }
}

/// The command named by an installation's manifest: the launch wrapper's
/// filename under the installation's bin directory.
pub fn manifest_command(manifest_text: &str) -> (r: Option<String>)
    ensures
        match r {
            Some(s) => manifest_command_of(manifest_text@) == Some(s@),
            None => manifest_command_of(manifest_text@) is None,
        },
{
    json_command(manifest_text)
}

/// Tokens of a string split at every single space, exactly as
/// str::split(" ") yields them: consecutive spaces give empty tokens, and
/// the empty string gives one empty token.
pub open spec fn space_tokens(s: Seq<char>) -> Seq<Seq<char>>
    decreases s.len(),
{
    if s.len() == 0 {
        seq![Seq::<char>::empty()]
    } else if s[0] == ' ' {
        seq![Seq::<char>::empty()] + space_tokens(s.drop_first())
    } else {
        let rest = space_tokens(s.drop_first());
        seq![seq![s[0]] + rest[0]] + rest.drop_first()
    }
}

/// The marker token that the launch wrapper places right before the real
/// executable's absolute in-sandbox path.
pub open spec fn marker_token() -> Seq<char> {
    "zypak-wrapper"@
}

/// The absolute prefix under which the wrapper script addresses the
/// installation root from inside the sandbox.
pub open spec fn sandbox_prefix() -> Seq<char> {
    "/app/"@
}

/// The executable path the wrapper script names, relative to the
/// installation root: the token right after the first marker token, with
/// the fixed absolute prefix stripped. `None` when no marker token is
/// present, nothing follows it, or what follows does not begin with the
/// prefix.
pub open spec fn replaced_path_of(toks: Seq<Seq<char>>) -> Option<Seq<char>>
    decreases toks.len(),
{
    if toks.len() == 0 {
        None
    } else if toks[0] == marker_token() {
        if toks.len() >= 2 && toks[1].len() >= sandbox_prefix().len() && toks[1].take(
            sandbox_prefix().len() as int,
        ) == sandbox_prefix() {
            Some(toks[1].skip(sandbox_prefix().len() as int))
        } else {
            None
        }
    } else {
        replaced_path_of(toks.drop_first())
    }
}

/// A run of non-space characters closed by a space or by the end of the
/// string is the next token, and splitting carries on after the space.
proof fn lemma_space_tokens_split(s: Seq<char>, k: int)
    requires
        0 <= k <= s.len(),
        forall|j: int| 0 <= j < k ==> s[j] != ' ',
        k < s.len() ==> s[k] == ' ',
    ensures
        k == s.len() ==> space_tokens(s) == seq![s],
        k < s.len() ==> space_tokens(s) == seq![s.take(k)] + space_tokens(s.skip(k + 1)),
    decreases s.len(),
{
    if k == 0 {
        if s.len() == 0 {
            assert(s =~= Seq::<char>::empty());
        } else {
            assert(s.take(0) =~= Seq::<char>::empty());
            assert(s.drop_first() =~= s.skip(1));
        }
    } else {
        lemma_space_tokens_split(s.drop_first(), k - 1);
        let rest = space_tokens(s.drop_first());
        if k == s.len() {
            assert(rest == seq![s.drop_first()]);
            assert(seq![s[0]] + rest[0] =~= s);
            assert(rest.drop_first() =~= Seq::<Seq<char>>::empty());
            assert(space_tokens(s) =~= seq![s]);
        } else {
            assert(s.drop_first()[k - 1] == s[k]);
            assert(rest == seq![s.drop_first().take(k - 1)] + space_tokens(
                s.drop_first().skip(k),
            ));
            assert(seq![s[0]] + rest[0] =~= s.take(k));
            assert(s.drop_first().skip(k) =~= s.skip(k + 1));
            assert(rest.drop_first() =~= space_tokens(s.skip(k + 1)));
            assert(space_tokens(s) =~= seq![s.take(k)] + space_tokens(s.skip(k + 1)));
        }
    }
}

/// Splits a string at every single space, as str::split(" ") does.
fn split_spaces(s: &str) -> (r: Vec<String>)
    ensures
        r.deep_view() == space_tokens(s@),
{
    let n = s.unicode_len();
    let mut toks: Vec<String> = Vec::new();
    let mut start: usize = 0;
    let mut i: usize = 0;
    proof {
        assert(s@.skip(0) =~= s@);
        assert(toks.deep_view() =~= Seq::<Seq<char>>::empty());
    }
    while i < n
        invariant
            start <= i <= n,
            n == s@.len(),
            forall|j: int| start <= j < i ==> s@[j] != ' ',
            space_tokens(s@) == toks.deep_view() + space_tokens(s@.skip(start as int)),
        decreases n - i,
    {
        let c = s.get_char(i);
        if c == ' ' {
            let ghost toks_pre = toks.deep_view();
            let tok = s.substring_char(start, i).to_owned();
            toks.push(tok);
            proof {
                let tail = s@.skip(start as int);
                assert(forall|j: int|
                    0 <= j < i - start ==> tail[j] == s@[start + j] && tail[j] != ' ');
                assert(tail[i - start] == ' ');
                lemma_space_tokens_split(tail, i - start);
                assert(tail.take(i - start) =~= s@.subrange(start as int, i as int));
                assert(tail.skip(i - start + 1) =~= s@.skip(i + 1));
                assert(toks.deep_view() =~= toks_pre.push(s@.subrange(start as int, i as int)));
                assert(toks.deep_view() + space_tokens(s@.skip(i + 1)) =~= toks_pre + (seq![
                    tail.take(i - start),
                ] + space_tokens(tail.skip(i - start + 1))));
            }
            i += 1;
            start = i;
        } else {
            i += 1;
        }
    }
    let ghost toks_pre = toks.deep_view();
    let tok = s.substring_char(start, n).to_owned();
    toks.push(tok);
    proof {
        let tail = s@.skip(start as int);
        assert(forall|j: int| 0 <= j < tail.len() ==> tail[j] == s@[start + j] && tail[j] != ' ');
        lemma_space_tokens_split(tail, tail.len() as int);
        assert(tail =~= s@.subrange(start as int, n as int));
        assert(toks.deep_view() =~= toks_pre.push(tail));
        assert(toks.deep_view() =~= toks_pre + seq![tail]);
    }
    toks
}

/// Reads the launch-wrapper script's text and yields the replaced
/// executable's path relative to the installation root: the first absolute
/// path argument following the marker token, with the sandbox prefix
/// stripped.
pub fn wrapper_replaced_path(wrapper_text: &str) -> (r: Option<String>)
    ensures
        match r {
            Some(p) => replaced_path_of(space_tokens(wrapper_text@)) == Some(p@),
            None => replaced_path_of(space_tokens(wrapper_text@)) is None,
        },
{
    let toks = split_spaces(wrapper_text);
    let marker = String::from_str("zypak-wrapper");
    let prefix = String::from_str("/app/");
    let ghost tv = toks.deep_view();
    let m = toks.len();
    let mut j: usize = 0;
    proof {
        assert(tv.skip(0) =~= tv);
    }
    while j < m
        invariant
            j <= m,
            m == toks@.len(),
            marker@ == marker_token(),
            prefix@ == sandbox_prefix(),
            tv == toks.deep_view(),
            tv == space_tokens(wrapper_text@),
            replaced_path_of(tv) == replaced_path_of(tv.skip(j as int)),
        decreases m - j,
    {
        if toks[j] == marker {
            proof {
                assert(tv.skip(j as int)[0] == tv[j as int]);
                reveal_strlit("/app/");
            }
            if j + 1 < m {
                let t = &toks[j + 1];
                let tlen = t.as_str().unicode_len();
                proof {
                    assert(tv.skip(j as int)[1] == tv[j + 1]);
                }
                if tlen >= 5 {
                    let head = t.as_str().substring_char(0, 5).to_owned();
                    if head == prefix {
                        let tail = t.as_str().substring_char(5, tlen).to_owned();
                        proof {
                            assert(t@.take(5) =~= t@.subrange(0, 5));
                            assert(t@.skip(5) =~= t@.subrange(5, t@.len() as int));
                        }
                        return Some(tail);
                    }
                }
            }
            return None;
        }
        proof {
            assert(tv.skip(j as int)[0] == tv[j as int]);
            assert(tv.skip(j as int).drop_first() =~= tv.skip(j + 1));
        }
        j += 1;
    }
    proof {
        assert(tv.skip(m as int) =~= Seq::<Seq<char>>::empty());
    }
    None
}

} // verus!
