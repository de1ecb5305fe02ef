//! Skills: instructions that are put before a conversation.

use crate::front_matter;
use crate::front_matter::{Front, FrontView};
use crate::json;
use crate::json::{FieldView, LeafView};
use crate::pairs;
use crate::paths;
use crate::text;
use crate::text_facts;
use vstd::prelude::*;

verus! {

/// A skill.
pub struct Skill {
    pub name: String,
    pub description: String,
    /// The instructions, with the skill's directory filled in.
    pub content: String,
}

/// What a [`Skill`] says.
#[verifier::ext_equal]
pub struct SkillView {
    pub name: Seq<char>,
    pub description: Seq<char>,
    pub content: Seq<char>,
}

impl View for Skill {
    type V = SkillView;

    open spec fn view(&self) -> SkillView {
        SkillView { name: self.name@, description: self.description@, content: self.content@ }
    }
}

pub open spec fn or_empty(v: Option<Seq<char>>) -> Seq<char> {
    match v {
        Some(t) => t,
        None => Seq::empty(),
    }
}

/// The instructions with the skill's directory filled in where it is known.
pub open spec fn placed(body: Seq<char>, dir: Option<Seq<char>>) -> Seq<char> {
    match dir {
        Some(d) => text::replaced(body, "{{SKILL_DIR}}"@, d),
        None => body,
    }
}

/// The skill that a document describes, or why it describes none.
pub open spec fn skill_of(raw: Seq<char>, dir: Option<Seq<char>>) -> Result<SkillView, Seq<char>> {
    match front_matter::parts_of(raw) {
        FrontView::NoOpening => Err(
            "SKILL.md is missing the opening `---` frontmatter delimiter"@,
        ),
        FrontView::NoClosing => Err("SKILL.md is missing the closing `---`"@),
        FrontView::Parts { front, rest } => {
            let name = or_empty(front_matter::field(front, "name:"@));
            if name.len() == 0 {
                Err("SKILL.md frontmatter is missing a `name:` field"@)
            } else {
                Ok(
                    SkillView {
                        name,
                        description: or_empty(front_matter::field(front, "description:"@)),
                        content: placed(text::ltrim(rest), dir),
                    },
                )
            }
        },
    }
}

pub open spec fn skill_outcome(r: Result<Skill, String>) -> Result<SkillView, Seq<char>> {
    match r {
        Ok(s) => Ok(s@),
        Err(e) => Err(e@),
    }
}

fn unwrap_or_empty(v: Option<String>) -> (r: String)
    ensures
        r@ == or_empty(text::option_view(v)),
{
    match v {
        Some(t) => t,
        None => String::new(),
    }
}

/// Reads a skill from its document. Only the name and the description are read from the
/// front matter; the body holds the instructions.
pub fn parse_skill_md(raw: &str, skill_dir: Option<&str>) -> (r: Result<Skill, String>)
    ensures
        skill_outcome(r) == skill_of(
            raw@,
            match skill_dir {
                Some(d) => Some(d@),
                None => None,
            },
        ),
{
    match front_matter::take_apart(raw) {
        Front::NoOpening => Err(
            "SKILL.md is missing the opening `---` frontmatter delimiter".to_string(),
        ),
        Front::NoClosing => Err("SKILL.md is missing the closing `---`".to_string()),
        Front::Parts { front, rest } => {
            let body = text::trim_start(rest);
            let name = unwrap_or_empty(front_matter::get_field(front, "name:"));
            let description = unwrap_or_empty(front_matter::get_field(front, "description:"));
            if name.as_str().is_empty() {
                return Err("SKILL.md frontmatter is missing a `name:` field".to_string());
            }
            let content = match skill_dir {
                Some(dir) => {
                    proof {
                        reveal_strlit("{{SKILL_DIR}}");
                    }
                    text::replace(body, "{{SKILL_DIR}}", dir)
                },
                None => body.to_string(),
            };
            Ok(Skill { name, description, content })
        },
    }
}

/// Where a skill stands in a repository.
pub struct GitHubRef {
    pub owner: String,
    pub repo: String,
    /// The branch, or `HEAD` where none is named.
    pub branch: String,
    /// The directory in the repository; empty for its root.
    pub subpath: String,
}

/// What a [`GitHubRef`] says.
#[verifier::ext_equal]
pub struct GitHubRefView {
    pub owner: Seq<char>,
    pub repo: Seq<char>,
    pub branch: Seq<char>,
    pub subpath: Seq<char>,
}

impl View for GitHubRef {
    type V = GitHubRefView;

    open spec fn view(&self) -> GitHubRefView {
        GitHubRefView {
            owner: self.owner@,
            repo: self.repo@,
            branch: self.branch@,
            subpath: self.subpath@,
        }
    }
}

/// What follows the host in an address.
pub open spec fn repo_path(url: Seq<char>) -> Option<Seq<char>> {
    match text::after_prefix(url, "https://github.com/"@) {
        Some(p) => Some(p),
        None => text::after_prefix(url, "http://github.com/"@),
    }
}

/// The directory of a file address: without the skill file and slashes at its end.
pub open spec fn file_dir(rest: Seq<char>) -> Seq<char> {
    let dir = match text::before_suffix(rest, "/SKILL.md"@) {
        Some(d) => d,
        None => match text::before_suffix(rest, "SKILL.md"@) {
            Some(d) => d,
            None => rest,
        },
    };
    text::rtrim_char(dir, '/')
}

/// What the parts of an address after the host name: owner, repository, and perhaps the
/// kind of page, a branch and a path.
pub open spec fn ref_of_parts(url: Seq<char>, parts: Seq<Seq<char>>) -> Result<
    GitHubRefView,
    Seq<char>,
> {
    if parts.len() < 2 {
        Err("GitHub URL must be at least https://github.com/owner/repo"@)
    } else if parts.len() == 2 {
        Ok(
            GitHubRefView {
                owner: parts[0],
                repo: parts[1],
                branch: "HEAD"@,
                subpath: Seq::empty(),
            },
        )
    } else if parts.len() == 5 && parts[2] == "blob"@ {
        Ok(
            GitHubRefView {
                owner: parts[0],
                repo: parts[1],
                branch: parts[3],
                subpath: file_dir(parts[4]),
            },
        )
    } else if parts.len() == 5 && parts[2] == "tree"@ {
        Ok(
            GitHubRefView {
                owner: parts[0],
                repo: parts[1],
                branch: parts[3],
                subpath: text::rtrim_char(parts[4], '/'),
            },
        )
    } else if parts.len() == 4 && parts[2] == "tree"@ {
        Ok(
            GitHubRefView {
                owner: parts[0],
                repo: parts[1],
                branch: parts[3],
                subpath: Seq::empty(),
            },
        )
    } else {
        Err("unsupported GitHub URL format: "@ + url)
    }
}

/// What an address names, or why it names no skill.
pub open spec fn ref_of(url: Seq<char>) -> Result<GitHubRefView, Seq<char>> {
    let u = text::rtrim_char(url, '/');
    match repo_path(u) {
        Some(p) => ref_of_parts(u, text::split_at_most(p, '/', 5)),
        None => Err("only github.com URLs are supported (got: "@ + u + ")"@),
    }
}

pub open spec fn ref_outcome(r: Result<GitHubRef, String>) -> Result<GitHubRefView, Seq<char>> {
    match r {
        Ok(g) => Ok(g@),
        Err(e) => Err(e@),
    }
}

fn strip_skill_file(rest: &str) -> (r: String)
    ensures
        r@ == file_dir(rest@),
{
    let dir = match text::strip_suffix(rest, "/SKILL.md") {
        Some(d) => d,
        None => match text::strip_suffix(rest, "SKILL.md") {
            Some(d) => d,
            None => rest,
        },
    };
    text::trim_end_char(dir, '/').to_string()
}

/// Reads the address of a repository, of a directory in it or of a skill file.
pub fn parse_github_url(url: &str) -> (r: Result<GitHubRef, String>)
    ensures
        ref_outcome(r) == ref_of(url@),
{
    let url = text::trim_end_char(url, '/');
    let path = match text::strip_prefix(url, "https://github.com/") {
        Some(p) => p,
        None => match text::strip_prefix(url, "http://github.com/") {
            Some(p) => p,
            None => {
                let mut m = "only github.com URLs are supported (got: ".to_string();
                m.append(url);
                m.append(")");
                return Err(m);
            },
        },
    };
    let parts = text::splitn(path, '/', 5);
    let n = parts.len();
    assert(n == text::views(parts@).len());
    if n < 2 {
        return Err("GitHub URL must be at least https://github.com/owner/repo".to_string());
    }
    assert(text::views(parts@)[0] == parts[0]@ && text::views(parts@)[1] == parts[1]@);
    let owner = parts[0].clone();
    let repo = parts[1].clone();
    if n == 2 {
        return Ok(
            GitHubRef { owner, repo, branch: "HEAD".to_string(), subpath: String::new() },
        );
    }
    assert(text::views(parts@)[2] == parts[2]@);
    if n == 5 && text::same(parts[2].as_str(), "blob") {
        assert(text::views(parts@)[3] == parts[3]@ && text::views(parts@)[4] == parts[4]@);
        return Ok(
            GitHubRef {
                owner,
                repo,
                branch: parts[3].clone(),
                subpath: strip_skill_file(parts[4].as_str()),
            },
        );
    }
    if n == 5 && text::same(parts[2].as_str(), "tree") {
        assert(text::views(parts@)[3] == parts[3]@ && text::views(parts@)[4] == parts[4]@);
        return Ok(
            GitHubRef {
                owner,
                repo,
                branch: parts[3].clone(),
                subpath: text::trim_end_char(parts[4].as_str(), '/').to_string(),
            },
        );
    }
    if n == 4 && text::same(parts[2].as_str(), "tree") {
        assert(text::views(parts@)[3] == parts[3]@);
        return Ok(
            GitHubRef { owner, repo, branch: parts[3].clone(), subpath: String::new() },
        );
    }
    Err(text::cat("unsupported GitHub URL format: ", url))
}

/// The path of the skill file in its repository.
pub open spec fn skill_file(g: GitHubRefView) -> Seq<char> {
    if g.subpath.len() == 0 {
        "SKILL.md"@
    } else {
        g.subpath + "/SKILL.md"@
    }
}

/// The address of a file's contents.
pub open spec fn raw_address(g: GitHubRefView, path: Seq<char>) -> Seq<char> {
    "https://raw.githubusercontent.com/"@ + g.owner + "/"@ + g.repo + "/"@ + g.branch + "/"@ + path
}

/// The address of a file's contents.
pub fn raw_url(g: &GitHubRef, path: &str) -> (r: String)
    ensures
        r@ == raw_address(g@, path@),
{
    let mut out = "https://raw.githubusercontent.com/".to_string();
    out.append(g.owner.as_str());
    out.append("/");
    out.append(g.repo.as_str());
    out.append("/");
    out.append(g.branch.as_str());
    out.append("/");
    out.append(path);
    out
}

/// The address of the skill file's contents.
pub fn skill_url(g: &GitHubRef) -> (r: String)
    ensures
        r@ == raw_address(g@, skill_file(g@)),
{
    if g.subpath.as_str().is_empty() {
        raw_url(g, "SKILL.md")
    } else {
        raw_url(g, text::cat(g.subpath.as_str(), "/SKILL.md").as_str())
    }
}

/// The address of the list of the repository's files.
pub fn tree_url(g: &GitHubRef) -> (r: String)
    ensures
        r@ == "https://api.github.com/repos/"@ + g@.owner + "/"@ + g@.repo + "/git/trees/"@
            + g@.branch + "?recursive=1"@,
{
    let mut out = "https://api.github.com/repos/".to_string();
    out.append(g.owner.as_str());
    out.append("/");
    out.append(g.repo.as_str());
    out.append("/git/trees/");
    out.append(g.branch.as_str());
    out.append("?recursive=1");
    out
}

/// An entry of the list of a repository's files.
pub struct TreeEntry {
    pub kind: Option<String>,
    pub path: Option<String>,
}

/// What a [`TreeEntry`] says.
#[verifier::ext_equal]
pub struct TreeEntryView {
    pub kind: Option<Seq<char>>,
    pub path: Option<Seq<char>>,
}

impl View for TreeEntry {
    type V = TreeEntryView;

    open spec fn view(&self) -> TreeEntryView {
        TreeEntryView {
            kind: text::option_view(self.kind),
            path: text::option_view(self.path),
        }
    }
}

pub open spec fn entry_views(v: Seq<TreeEntry>) -> Seq<TreeEntryView> {
    v.map_values(|e: TreeEntry| e@)
}

/// A file that belongs to a skill: where it goes below the skill's directory, and the
/// address of its contents.
pub struct SkillFile {
    pub rel_path: String,
    pub url: String,
}

/// What a [`SkillFile`] says.
#[verifier::ext_equal]
pub struct SkillFileView {
    pub rel_path: Seq<char>,
    pub url: Seq<char>,
}

impl View for SkillFile {
    type V = SkillFileView;

    open spec fn view(&self) -> SkillFileView {
        SkillFileView { rel_path: self.rel_path@, url: self.url@ }
    }
}

pub open spec fn file_views(v: Seq<SkillFile>) -> Seq<SkillFileView> {
    v.map_values(|f: SkillFile| f@)
}

/// Where a file of the repository goes below the skill's directory; nowhere, if it does
/// not stand below the directory of the skill.
pub open spec fn relative(g: GitHubRefView, path: Seq<char>) -> Option<Seq<char>> {
    if g.subpath.len() == 0 {
        Some(path)
    } else {
        text::after_prefix(path, g.subpath + "/"@)
    }
}

/// The file to fetch for an entry: none for a directory, for a file elsewhere and for the
/// skill file itself.
pub open spec fn file_of(g: GitHubRefView, e: TreeEntryView) -> Option<SkillFileView> {
    let path = or_empty(e.path);
    if e.kind != Some("blob"@) {
        None
    } else {
        match relative(g, path) {
            None => None,
            Some(rel) => if rel == "SKILL.md"@ {
                None
            } else {
                Some(SkillFileView { rel_path: rel, url: raw_address(g, path) })
            },
        }
    }
}

/// The files to fetch for the entries of a list.
pub open spec fn files_of(g: GitHubRefView, es: Seq<TreeEntryView>) -> Seq<SkillFileView>
    decreases es.len(),
{
    if es.len() == 0 {
        Seq::empty()
    } else {
        let before = files_of(g, es.drop_last());
        match file_of(g, es.last()) {
            Some(f) => before.push(f),
            None => before,
        }
    }
}

fn fetch_file(g: &GitHubRef, e: &TreeEntry) -> (r: Option<SkillFile>)
    ensures
        file_of(g@, e@) == match r {
            Some(f) => Some(f@),
            None => None,
        },
{
    let blob = match &e.kind {
        Some(k) => text::same(k.as_str(), "blob"),
        None => false,
    };
    if !blob {
        return None;
    }
    let path = match &e.path {
        Some(p) => p.clone(),
        None => String::new(),
    };
    let rel = if g.subpath.as_str().is_empty() {
        path.clone()
    } else {
        let prefix = text::cat(g.subpath.as_str(), "/");
        match text::strip_prefix(path.as_str(), prefix.as_str()) {
            Some(s) => s.to_string(),
            None => {
                return None;
            },
        }
    };
    if text::same(rel.as_str(), "SKILL.md") {
        return None;
    }
    let url = raw_url(g, path.as_str());
    Some(SkillFile { rel_path: rel, url })
}

/// The files to fetch beside the skill file.
pub fn skill_files(g: &GitHubRef, entries: &Vec<TreeEntry>) -> (r: Vec<SkillFile>)
    ensures
        file_views(r@) == files_of(g@, entry_views(entries@)),
{
    let mut out: Vec<SkillFile> = Vec::new();
    let ghost all = entry_views(entries@);
    let mut i: usize = 0;
    assert(all.take(0) =~= Seq::<TreeEntryView>::empty());
    assert(file_views(out@) =~= Seq::<SkillFileView>::empty());
    while i < entries.len()
        invariant
            i <= entries.len(),
            all == entry_views(entries@),
            file_views(out@) == files_of(g@, all.take(i as int)),
        decreases entries.len() - i,
    {
        let ghost before = file_views(out@);
        assert(all.take(i + 1).drop_last() =~= all.take(i as int));
        assert(all.take(i + 1).last() == entries[i as int]@);
        if let Some(f) = fetch_file(g, &entries[i]) {
            let ghost v = f@;
            out.push(f);
            assert(file_views(out@) =~= before.push(v));
        }
        i += 1;
    }
    assert(all.take(i as int) =~= all);
    out
}

/// The entry that an item of the list stands for.
pub open spec fn entry_of(item: LeafView) -> TreeEntryView {
    match json::json_object(item.text) {
        Some(f) => TreeEntryView {
            kind: json::string_at(f, "type"@),
            path: json::string_at(f, "path"@),
        },
        None => TreeEntryView { kind: None, path: None },
    }
}

/// The entries of a list of files, or why the text holds none, given whether it is JSON
/// and what it is as an object.
pub open spec fn entries_of(is_json: bool, fields: Option<Seq<FieldView>>) -> Result<
    Seq<TreeEntryView>,
    Seq<char>,
> {
    if !is_json {
        Err("failed to parse GitHub tree API response"@)
    } else {
        let items = match fields {
            Some(f) => json::json_array(json::text_at(f, "tree"@)),
            None => None,
        };
        match items {
            Some(ls) => Ok(ls.map_values(|l: LeafView| entry_of(l))),
            None => Err("unexpected GitHub Trees API response shape"@),
        }
    }
}

/// Reads the list of a repository's files.
pub fn parse_tree(response: &str) -> (r: Result<Vec<TreeEntry>, String>)
    ensures
        entries_of(json::json_fault(response@) is None, json::json_object(response@)) == match r {
            Ok(es) => Ok(entry_views(es@)),
            Err(e) => Err(e@),
        },
{
    if json::find_fault(response).is_some() {
        return Err("failed to parse GitHub tree API response".to_string());
    }
    let items = match json::read_object(response) {
        Some(f) => json::read_array(json::get_text(&f, "tree").as_str()),
        None => None,
    };
    let items = match items {
        Some(v) => v,
        None => {
            return Err("unexpected GitHub Trees API response shape".to_string());
        },
    };
    let ghost all = json::leaf_views(items@).map_values(|l: LeafView| entry_of(l));
    let mut out: Vec<TreeEntry> = Vec::new();
    let mut i: usize = 0;
    assert(entry_views(out@) =~= all.take(0));
    while i < items.len()
        invariant
            i <= items.len(),
            all == json::leaf_views(items@).map_values(|l: LeafView| entry_of(l)),
            entry_views(out@) == all.take(i as int),
        decreases items.len() - i,
    {
        let ghost before = entry_views(out@);
        let e = match json::read_object(items[i].text.as_str()) {
            Some(f) => TreeEntry {
                kind: json::get_string(&f, "type"),
                path: json::get_string(&f, "path"),
            },
            None => TreeEntry { kind: None, path: None },
        };
        assert(e@ == entry_of(items[i as int]@));
        let ghost v = e@;
        out.push(e);
        i += 1;
        assert(entry_views(out@) =~= before.push(v));
        assert(entry_views(out@) =~= all.take(i as int));
    }
    assert(entry_views(out@) =~= all);
    Ok(out)
}

/// The name of the first skill that was saved from an address; `saved` holds the names of the
/// saved skills with the addresses that their skill files came from.
pub open spec fn saved_from(saved: Seq<(Seq<char>, Seq<char>)>, address: Seq<char>) -> Option<
    Seq<char>,
>
    decreases saved.len(),
{
    if saved.len() == 0 {
        None
    } else if saved[0].1 == address {
        Some(saved[0].0)
    } else {
        saved_from(saved.drop_first(), address)
    }
}

/// The name under which a skill was saved when it was first used, if it was.
pub fn cached_skill(saved: &Vec<(String, String)>, g: &GitHubRef) -> (r: Option<String>)
    ensures
        text::option_view(r) == saved_from(
            pairs::pair_views(saved@),
            raw_address(g@, skill_file(g@)),
        ),
{
    let address = skill_url(g);
    let ghost all = pairs::pair_views(saved@);
    let mut i: usize = 0;
    assert(all.skip(0) =~= all);
    while i < saved.len()
        invariant
            i <= saved.len(),
            all == pairs::pair_views(saved@),
            address@ == raw_address(g@, skill_file(g@)),
            saved_from(all, address@) == saved_from(all.skip(i as int), address@),
        decreases saved.len() - i,
    {
        assert(all.skip(i as int)[0] == all[i as int]);
        assert(all.skip(i as int).drop_first() =~= all.skip(i + 1));
        if text::same(saved[i].1.as_str(), address.as_str()) {
            return Some(saved[i].0.clone());
        }
        i += 1;
    }
    None
}

/// Whether a skill is named by an address rather than by its own name.
pub fn is_address(name_or_url: &str) -> (r: bool)
    ensures
        r == (text::begins_with(name_or_url@, "http://"@) || text::begins_with(
            name_or_url@,
            "https://"@,
        )),
{
    text::starts_with(name_or_url, "http://") || text::starts_with(name_or_url, "https://")
}

/// The directory of the skills below the user's home.
pub fn skills_dir(home: Option<&str>) -> (r: Result<String, String>)
    ensures
        match home {
            Some(h) => r matches Ok(p) && p@ == paths::below(
                paths::below(h@, ".axon"@),
                "skills"@,
            ),
            None => r matches Err(e) && e@ == "cannot determine home directory"@,
        },
{
    match home {
        Some(h) => Ok(paths::join(paths::join(h, ".axon").as_str(), "skills")),
        None => Err("cannot determine home directory".to_string()),
    }
}

/// Why a skill could not be read from the skills directory.
pub fn not_found(name: &str) -> (r: String)
    ensures
        r@ == "skill '"@ + name@ + "' not found in ~/.axon/skills/"@,
{
    let mut m = "skill '".to_string();
    m.append(name);
    m.append("' not found in ~/.axon/skills/");
    m
}

/// A skill has a name, and whether its directory is known makes no difference to its name
/// or to whether it can be read.
pub proof fn law_skill_name_does_not_depend_on_place(raw: Seq<char>, dir: Seq<char>)
    ensures
        skill_of(raw, None) is Ok <==> skill_of(raw, Some(dir)) is Ok,
        skill_of(raw, None) matches Ok(s) ==> s.name.len() > 0 && (skill_of(raw, Some(dir))
            matches Ok(t) && t.name == s.name && t.description == s.description && t.content
            == text::replaced(s.content, "{{SKILL_DIR}}"@, dir)),
{
}

/// Every file that is fetched is a file of the repository below the skill's directory, at
/// its own address, and the skill file is not fetched twice.
pub proof fn law_fetched_files(g: GitHubRefView, es: Seq<TreeEntryView>)
    ensures
        forall|i: int|
            0 <= i < files_of(g, es).len() ==> exists|j: int|
                0 <= j < es.len() && file_of(g, es[j]) == Some(#[trigger] files_of(g, es)[i])
                    && files_of(g, es)[i].rel_path != "SKILL.md"@,
    decreases es.len(),
{
    if es.len() > 0 {
        let rest = es.drop_last();
        law_fetched_files(g, rest);
        let all = files_of(g, es);
        let before = files_of(g, rest);
        assert forall|i: int| 0 <= i < all.len() implies exists|j: int|
            0 <= j < es.len() && file_of(g, es[j]) == Some(#[trigger] all[i]) && all[i].rel_path
                != "SKILL.md"@ by {
            if i < before.len() {
                assert(all[i] == before[i]);
                let j = choose|j: int|
                    0 <= j < rest.len() && file_of(g, rest[j]) == Some(before[i])
                        && before[i].rel_path != "SKILL.md"@;
                assert(es[j] == rest[j]);
            } else {
                assert(es[es.len() - 1] == es.last());
            }
        }
    }
}

/// The parts of a path made of parts without slashes and a rest.
proof fn lemma_split_path(
    a: Seq<char>,
    b: Seq<char>,
    kind: Seq<char>,
    branch: Seq<char>,
    rest: Seq<char>,
)
    requires
        text_facts::free_of(a, '/'),
        text_facts::free_of(b, '/'),
        text_facts::free_of(kind, '/'),
        text_facts::free_of(branch, '/'),
    ensures
        text::split_at_most(
            a + seq!['/'] + (b + seq!['/'] + (kind + seq!['/'] + (branch + seq!['/'] + rest))),
            '/',
            5,
        ) == seq![a, b, kind, branch, rest],
{
    let p4 = branch + seq!['/'] + rest;
    let p3 = kind + seq!['/'] + p4;
    let p2 = b + seq!['/'] + p3;
    let p1 = a + seq!['/'] + p2;
    lemma_split_first(branch, rest);
    lemma_split_first(kind, p4);
    lemma_split_first(b, p3);
    lemma_split_first(a, p2);
    assert(text::split_at_most(rest, '/', 1) == seq![rest]);
    assert(text::split_at_most(p4, '/', 2) == seq![branch] + seq![rest]);
    assert(text::split_at_most(p3, '/', 3) == seq![kind] + (seq![branch] + seq![rest]));
    assert(text::split_at_most(p2, '/', 4) == seq![b] + (seq![kind] + (seq![branch]
        + seq![rest])));
    assert(text::split_at_most(p1, '/', 5) =~= seq![a, b, kind, branch, rest]);
}

proof fn lemma_split_first(a: Seq<char>, rest: Seq<char>)
    requires
        text_facts::free_of(a, '/'),
    ensures
        text::split_pair(a + seq!['/'] + rest, '/') == Some((a, rest)),
{
    let s = a + seq!['/'] + rest;
    let n = a.len() as int;
    assert(s[n] == '/');
    assert forall|j: int| 0 <= j < n implies s[j] != '/' by {
        assert(s[j] == a[j]);
    }
    text::lemma_first_char_is(s, '/', n);
    assert(s.take(n) =~= a);
    assert(s.skip(n + 1) =~= rest);
}

/// Some slashes.
pub open spec fn slashes(n: nat) -> Seq<char> {
    Seq::new(n, |i: int| '/')
}

/// The address of a page of a repository, with or without encryption, and with `n` slashes at
/// its end.
pub open spec fn page_address(
    secure: bool,
    owner: Seq<char>,
    repo: Seq<char>,
    kind: Seq<char>,
    branch: Seq<char>,
    path: Seq<char>,
    n: nat,
) -> Seq<char> {
    (if secure {
        "https://github.com/"@
    } else {
        "http://github.com/"@
    }) + (owner + seq!['/'] + (repo + seq!['/'] + (kind + seq!['/'] + (branch + seq!['/'] + path))))
        + slashes(n)
}

proof fn lemma_trim_slashes(s: Seq<char>, n: nat)
    requires
        s.len() > 0,
        s.last() != '/',
    ensures
        text::rtrim_char(s + slashes(n), '/') == s,
    decreases n,
{
    let t = s + slashes(n);
    if n == 0 {
        assert(t =~= s);
    } else {
        assert(t.last() == '/');
        assert(t.drop_last() =~= s + slashes((n - 1) as nat));
        lemma_trim_slashes(s, (n - 1) as nat);
    }
}

proof fn lemma_page(
    secure: bool,
    owner: Seq<char>,
    repo: Seq<char>,
    kind: Seq<char>,
    branch: Seq<char>,
    path: Seq<char>,
    n: nat,
)
    requires
        text_facts::free_of(owner, '/'),
        text_facts::free_of(repo, '/'),
        text_facts::free_of(kind, '/'),
        text_facts::free_of(branch, '/'),
        path.len() > 0,
        path.last() != '/',
    ensures
        ref_of(page_address(secure, owner, repo, kind, branch, path, n)) == ref_of_parts(
            page_address(secure, owner, repo, kind, branch, path, 0),
            seq![owner, repo, kind, branch, path],
        ),
{
    reveal_strlit("https://github.com/");
    reveal_strlit("http://github.com/");
    let safe = "https://github.com/"@;
    let open = "http://github.com/"@;
    let host = if secure {
        safe
    } else {
        open
    };
    let rest = owner + seq!['/'] + (repo + seq!['/'] + (kind + seq!['/'] + (branch + seq!['/']
        + path)));
    let url = host + rest;
    assert(url + slashes(0) =~= url);
    assert(url.last() == path.last());
    lemma_trim_slashes(url, n);
    assert(url.subrange(0, host.len() as int) =~= host);
    assert(url.skip(host.len() as int) =~= rest);
    assert(safe[4] == 's' && open[4] == ':');
    if !secure {
        assert(url[4] == ':');
        if text::begins_with(url, safe) {
            assert(url.subrange(0, safe.len() as int)[4] == url[4]);
        }
    }
    lemma_split_path(owner, repo, kind, branch, path);
}

/// The address of a skill file and that of its directory name the same skill, however they
/// are fetched and however many slashes stand at their ends.
pub proof fn law_file_and_directory_are_one_skill(
    file_secure: bool,
    dir_secure: bool,
    owner: Seq<char>,
    repo: Seq<char>,
    branch: Seq<char>,
    dir: Seq<char>,
    m: nat,
    n: nat,
)
    requires
        text_facts::free_of(owner, '/'),
        text_facts::free_of(repo, '/'),
        text_facts::free_of(branch, '/'),
        dir.len() > 0,
        dir.last() != '/',
    ensures
        ref_of(page_address(file_secure, owner, repo, "blob"@, branch, dir + "/SKILL.md"@, m))
            == ref_of(page_address(dir_secure, owner, repo, "tree"@, branch, dir, n)),
        ref_of(page_address(dir_secure, owner, repo, "tree"@, branch, dir, n)) == Ok::<
            _,
            Seq<char>,
        >((GitHubRefView { owner, repo, branch, subpath: dir })),
{
    reveal_strlit("blob");
    reveal_strlit("tree");
    reveal_strlit("/SKILL.md");
    let file = dir + "/SKILL.md"@;
    assert(file.last() == 'd');
    assert("blob"@[0] == 'b' && "tree"@[0] == 't');
    lemma_page(file_secure, owner, repo, "blob"@, branch, file, m);
    lemma_page(dir_secure, owner, repo, "tree"@, branch, dir, n);
    assert(file.subrange(file.len() - 9, file.len() as int) =~= "/SKILL.md"@);
    assert(file.take(file.len() - 9) =~= dir);
    assert(text::rtrim_char(dir, '/') == dir);
}

/// The instructions of a skill are everything that follows its front matter: the document is
/// some text up to the closing dashes, white space, and then the instructions to the end.
pub proof fn law_instructions_are_the_rest(raw: Seq<char>)
    ensures
        skill_of(raw, None) matches Ok(s) ==> exists|head: Seq<char>, w: Seq<char>|
            text::blank(w) && raw == #[trigger] (head + "\n---"@ + w + s.content),
        skill_of(raw, None) matches Ok(s) ==> s.content.len() > 0 ==> !text::white(s.content[0]),
{
    front_matter::law_document_is_its_parts(raw);
    if let Ok(s) = skill_of(raw, None) {
        if let FrontView::Parts { front, rest } = front_matter::parts_of(raw) {
            let top = choose|top: Seq<char>|
                raw == #[trigger] (top + front + "\n---"@ + rest);
            text_facts::law_trimming(rest);
            let k = choose|k: int|
                0 <= k <= rest.len() && text::ltrim(rest) == #[trigger] rest.skip(k)
                    && text::blank(rest.take(k));
            let w = rest.take(k);
            assert(s.content == text::ltrim(rest));
            assert(rest =~= w + s.content);
            assert(raw =~= (top + front) + "\n---"@ + w + s.content);
        }
    }
}

/// A skill that was written down is read back: its name, its description and, white space
/// before them aside, its instructions to the last character; and where its directory is
/// known, every mention of it in the instructions is filled in.
pub proof fn law_skill_is_read_back(
    name: Seq<char>,
    description: Seq<char>,
    gap: Seq<char>,
    body: Seq<char>,
    dir: Seq<char>,
)
    requires
        name.len() > 0,
        front_matter::bare(name) && text_facts::line_like(name),
        front_matter::bare(description) && text_facts::line_like(description),
        text::blank(gap),
        body.len() > 0 ==> !text::white(body[0]),
    ensures
        ({
            let raw = "---\n"@ + (("name: "@ + name + "\n"@ + ("description: "@ + description))
                + "\n---"@ + (gap + body));
            &&& skill_of(raw, None) == Ok::<_, Seq<char>>(
                (SkillView { name, description, content: body }),
            )
            &&& skill_of(raw, Some(dir)) == Ok::<_, Seq<char>>(
                (SkillView {
                    name,
                    description,
                    content: text::replaced(body, "{{SKILL_DIR}}"@, dir),
                }),
            )
        }),
{
    front_matter::law_name_and_description_are_read_back(name, description, gap + body);
    text_facts::lemma_trim_lead(gap, body);
    assert(text::ltrim(body) == body);
}

/// The place of the skill's directory in the instructions takes the directory, and nothing
/// else of them changes.
pub proof fn law_directory_is_filled_in(raw: Seq<char>, dir: Seq<char>, a: Seq<char>, b: Seq<char>)
    requires
        skill_of(raw, None) matches Ok(s) && s.content == a + "{{SKILL_DIR}}"@ + b,
        text_facts::only_at(a + "{{SKILL_DIR}}"@ + b, "{{SKILL_DIR}}"@, a.len() as int),
    ensures
        skill_of(raw, Some(dir)) matches Ok(t) && t.content == a + dir + b,
{
    reveal_strlit("{{SKILL_DIR}}");
    text_facts::law_replaced_once(a, "{{SKILL_DIR}}"@, b, dir, a);
}

/// No file of the skill is left out: every file of the repository below the skill's directory
/// but the skill file itself is fetched from its own address to its own place.
pub proof fn law_no_file_is_left_out(g: GitHubRefView, es: Seq<TreeEntryView>, i: int, rel: Seq<char>)
    requires
        0 <= i < es.len(),
        es[i].kind == Some("blob"@),
        es[i].path == Some(
            if g.subpath.len() == 0 {
                rel
            } else {
                g.subpath + "/"@ + rel
            },
        ),
        rel != "SKILL.md"@,
    ensures
        files_of(g, es).contains(
            (SkillFileView {
                rel_path: rel,
                url: "https://raw.githubusercontent.com/"@ + g.owner + "/"@ + g.repo + "/"@
                    + g.branch + "/"@ + es[i].path->0,
            }),
        ),
    decreases es.len(),
{
    let f = SkillFileView {
        rel_path: rel,
        url: "https://raw.githubusercontent.com/"@ + g.owner + "/"@ + g.repo + "/"@ + g.branch
            + "/"@ + es[i].path->0,
    };
    let all = files_of(g, es);
    let before = files_of(g, es.drop_last());
    if i == es.len() - 1 {
        let path = es[i].path->0;
        if g.subpath.len() > 0 {
            let p = g.subpath + "/"@;
            assert(path.subrange(0, p.len() as int) =~= p);
            assert(path.skip(p.len() as int) =~= rel);
        }
        assert(es.last() == es[i]);
        assert(file_of(g, es[i]) == Some(f));
        assert(all[before.len() as int] == f);
    } else {
        assert(es.drop_last()[i] == es[i]);
        law_no_file_is_left_out(g, es.drop_last(), i, rel);
        let k = choose|k: int| 0 <= k < before.len() && before[k] == f;
        assert(all[k] == f);
    }
}

/// The skill file itself, directories and what stands elsewhere in the repository are not
/// fetched.
pub proof fn law_nothing_else_is_fetched(g: GitHubRefView, e: TreeEntryView)
    ensures
        e.kind != Some("blob"@) ==> file_of(g, e) is None,
        g.subpath.len() > 0 && e.path is Some && !text::begins_with(
            e.path->0,
            g.subpath + "/"@,
        ) ==> file_of(g, e) is None,
        e.path == Some(skill_file(g)) ==> file_of(g, e) is None,
{
    reveal_strlit("/SKILL.md");
    reveal_strlit("SKILL.md");
    reveal_strlit("/");
    if e.path == Some(skill_file(g)) && g.subpath.len() > 0 {
        let path = g.subpath + "/SKILL.md"@;
        let p = g.subpath + "/"@;
        assert("/SKILL.md"@ =~= "/"@ + "SKILL.md"@);
        assert(path =~= p + "SKILL.md"@);
        assert(path.subrange(0, p.len() as int) =~= p);
        assert(path.skip(p.len() as int) =~= "SKILL.md"@);
    }
}

/// The skill file of a directory is the file `SKILL.md` in it, at the branch that the address
/// names.
pub proof fn law_skill_file_address(g: GitHubRefView)
    ensures
        raw_address(g, skill_file(g)) == "https://raw.githubusercontent.com/"@ + g.owner + "/"@
            + g.repo + "/"@ + g.branch + "/"@ + (if g.subpath.len() == 0 {
            "SKILL.md"@
        } else {
            g.subpath + "/SKILL.md"@
        }),
{
}

/// The address of a repository alone names the skill at its root on the default branch, and
/// that of a branch the skill at its root there.
pub proof fn law_repository_address(owner: Seq<char>, repo: Seq<char>, branch: Seq<char>)
    requires
        text_facts::free_of(owner, '/'),
        text_facts::free_of(repo, '/') && repo.len() > 0,
        text_facts::free_of(branch, '/') && branch.len() > 0,
    ensures
        ref_of("https://github.com/"@ + (owner + seq!['/'] + repo)) == Ok::<_, Seq<char>>(
            (GitHubRefView { owner, repo, branch: "HEAD"@, subpath: Seq::empty() }),
        ),
        ref_of(
            "https://github.com/"@ + (owner + seq!['/'] + (repo + seq!['/'] + ("tree"@ + seq!['/']
                + branch))),
        ) == Ok::<_, Seq<char>>((GitHubRefView { owner, repo, branch, subpath: Seq::empty() })),
{
    reveal_strlit("https://github.com/");
    reveal_strlit("tree");
    reveal_strlit("blob");
    let host = "https://github.com/"@;
    let p = owner + seq!['/'] + repo;
    let u = host + p;
    assert(u.last() == repo.last());
    assert(repo[repo.len() - 1] != '/');
    assert(text::rtrim_char(u, '/') == u);
    assert(u.subrange(0, host.len() as int) =~= host);
    assert(u.skip(host.len() as int) =~= p);
    lemma_split_first(owner, repo);
    lemma_no_split(repo);
    assert(text::split_at_most(repo, '/', 4) =~= seq![repo]);
    assert(text::split_at_most(p, '/', 5) =~= seq![owner, repo]);
    let t3 = "tree"@ + seq!['/'] + branch;
    let t2 = repo + seq!['/'] + t3;
    let q = owner + seq!['/'] + t2;
    let v = host + q;
    assert(v.last() == branch.last());
    assert(branch[branch.len() - 1] != '/');
    assert(text::rtrim_char(v, '/') == v);
    assert(v.subrange(0, host.len() as int) =~= host);
    assert(v.skip(host.len() as int) =~= q);
    lemma_split_first("tree"@, branch);
    lemma_split_first(repo, t3);
    lemma_split_first(owner, t2);
    lemma_no_split(branch);
    assert(text::split_at_most(branch, '/', 2) =~= seq![branch]);
    assert(text::split_at_most(t3, '/', 3) =~= seq!["tree"@, branch]);
    assert(text::split_at_most(t2, '/', 4) =~= seq![repo, "tree"@, branch]);
    assert(text::split_at_most(q, '/', 5) =~= seq![owner, repo, "tree"@, branch]);
    assert("tree"@[0] == 't' && "blob"@[0] == 'b');
}

proof fn lemma_no_split(s: Seq<char>)
    requires
        text_facts::free_of(s, '/'),
    ensures
        text::split_pair(s, '/') is None,
{
    text::lemma_first_char_none(s, '/');
}

/// A skill that was saved from an address is found again, and none is made up.
pub proof fn law_saved_skill_is_found(saved: Seq<(Seq<char>, Seq<char>)>, address: Seq<char>)
    ensures
        saved_from(saved, address) matches Some(n) ==> saved.contains((n, address)),
        saved_from(saved, address) is None ==> forall|i: int|
            0 <= i < saved.len() ==> (#[trigger] saved[i]).1 != address,
    decreases saved.len(),
{
    if saved.len() > 0 {
        let rest = saved.drop_first();
        law_saved_skill_is_found(rest, address);
        assert(saved[0] == (saved[0].0, saved[0].1));
        if saved[0].1 == address {
            assert(saved[0] == (saved[0].0, address));
        } else {
            if let Some(n) = saved_from(rest, address) {
                let i = choose|i: int| 0 <= i < rest.len() && rest[i] == (n, address);
                assert(saved[i + 1] == (n, address));
            } else {
                assert forall|i: int| 0 <= i < saved.len() implies (#[trigger] saved[i]).1
                    != address by {
                    if i > 0 {
                        assert(rest[i - 1] == saved[i]);
                    }
                }
            }
        }
    }
}

/// The listing of a repository is read whole: each entry in its place, with its own kind and
/// path.
pub proof fn law_listing_is_read(
    response: Seq<char>,
    members: Seq<(Seq<char>, Seq<char>)>,
    i: int,
    items: Seq<Seq<char>>,
    k: int,
    entry: Seq<(Seq<char>, Seq<char>)>,
    a: int,
    kind: Seq<char>,
    b: int,
    path: Seq<char>,
)
    requires
        json::json_of(response) == Ok::<_, Seq<char>>(json::JsonView::Object(members)),
        0 <= i < members.len() && members[i].0 == "tree"@,
        forall|j: int| 0 <= j < i ==> (#[trigger] members[j]).0 != "tree"@,
        json::json_of(members[i].1) == Ok::<_, Seq<char>>(json::JsonView::Array(items)),
        0 <= k < items.len(),
        json::json_of(items[k]) == Ok::<_, Seq<char>>(json::JsonView::Object(entry)),
        0 <= a < entry.len() && entry[a].0 == "type"@,
        forall|j: int| 0 <= j < a ==> (#[trigger] entry[j]).0 != "type"@,
        json::json_of(entry[a].1) == Ok::<_, Seq<char>>(json::JsonView::Text(kind)),
        0 <= b < entry.len() && entry[b].0 == "path"@,
        forall|j: int| 0 <= j < b ==> (#[trigger] entry[j]).0 != "path"@,
        json::json_of(entry[b].1) == Ok::<_, Seq<char>>(json::JsonView::Text(path)),
    ensures
        entries_of(json::json_fault(response) is None, json::json_object(response)) matches Ok(es)
            && es.len() == items.len() && es[k] == (TreeEntryView {
            kind: Some(kind),
            path: Some(path),
        }),
{
    json::law_members_and_items(response);
    json::law_member_is_found(response, members, i, "tree"@);
    json::law_members_and_items(members[i].1);
    let leaves = json::json_array(members[i].1)->0;
    assert(leaves[k].text == items[k]);
    json::law_member_is_found(items[k], entry, a, "type"@);
    json::law_member_is_found(items[k], entry, b, "path"@);
}

} // verus!
