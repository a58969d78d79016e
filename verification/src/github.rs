//! GitHub releases of the project: where to ask for them, and finding the
//! release of a version and an asset of a release.

use vstd::prelude::*;

use crate::net::{repository, trim_start_matches};
use crate::text::{find_char, find_char_exec, str_chars, sub_chars, chars_to_string};

verus! {

/// A file attached to a release.
#[derive(Debug, Clone)]
pub struct ReleaseAsset {
    pub id: u64,
    pub url: String,
    pub name: Option<String>,
    pub label: Option<String>,
    pub content_type: String,
    pub size: u64,
}

/// A release of the project.
#[derive(Debug, Clone)]
pub struct Release {
    pub id: u64,
    pub url: String,
    pub tag_name: String,
    pub name: Option<String>,
    pub body: Option<String>,
    pub draft: bool,
    pub prerelease: bool,
    pub assets: Vec<ReleaseAsset>,
}

/// The owner and the name of the repository at an address under
/// `https://github.com/`.
pub open spec fn spec_owner_and_repo(repo: Seq<char>) -> Option<(Seq<char>, Seq<char>)> {
    let rest = trim_start_matches(repo, "https://github.com/"@);
    match find_char(rest, '/') {
        Some(i) => Some((rest.take(i), rest.skip(i + 1))),
        None => None,
    }
}

/// A client of the GitHub API for the project's repository.
#[derive(Debug)]
pub struct Client {
    pub github_owner: String,
    pub github_repo: String,
}

/// The owner and the name of the repository at an address.
fn owner_and_repo(repo: &str) -> (r: Option<(String, String)>)
    ensures
        match r {
            Some(p) => spec_owner_and_repo(repo@) == Some((p.0@, p.1@)),
            None => spec_owner_and_repo(repo@) is None,
        },
{
    let prefix = str_chars("https://github.com/");
    proof {
        reveal_strlit("https://github.com/");
    }
    let mut rest = str_chars(repo);
    while crate::text::starts_with_chars(rest.as_slice(), "https://github.com/")
        invariant
            prefix@ == "https://github.com/"@,
            prefix@.len() == 19,
            trim_start_matches(rest@, prefix@) == trim_start_matches(repo@, prefix@),
        decreases rest@.len(),
    {
        let n = rest.len();
        let ghost old_rest = rest@;
        rest = sub_chars(rest.as_slice(), prefix.len(), n);
        assert(rest@ =~= old_rest.skip(prefix@.len() as int));
    }
    assert(trim_start_matches(rest@, prefix@) == rest@);
    match find_char_exec(rest.as_slice(), '/') {
        Some(i) => {
            let n = rest.len();
            let owner = chars_to_string(sub_chars(rest.as_slice(), 0, i).as_slice());
            let name = chars_to_string(sub_chars(rest.as_slice(), i + 1, n).as_slice());
            assert(rest@.subrange(0, i as int) =~= rest@.take(i as int));
            assert(rest@.subrange(i + 1, n as int) =~= rest@.skip(i + 1));
            Some((owner, name))
        },
        None => None,
    }
}

impl Client {
    /// A client for the project's repository, `filiptibell/lune`.
    pub fn new() -> (r: Self)
        ensures
            spec_owner_and_repo(repository()) == Some((r.github_owner@, r.github_repo@)),
    {
        proof {
            reveal_strlit("https://github.com/filiptibell/lune");
            reveal_strlit("https://github.com/");
            reveal_strlit("filiptibell/lune");
            assert("https://github.com/"@.is_prefix_of(repository()));
            assert(repository().skip(19) =~= "filiptibell/lune"@);
            assert("filiptibell/lune"@[11] == '/');
            crate::text::lemma_find_char("filiptibell/lune"@, '/');
            assert(!"https://github.com/"@.is_prefix_of("filiptibell/lune"@));
            assert(trim_start_matches("filiptibell/lune"@, "https://github.com/"@)
                == "filiptibell/lune"@);
            assert(trim_start_matches(repository(), "https://github.com/"@) == "filiptibell/lune"@);
        }
        match owner_and_repo("https://github.com/filiptibell/lune") {
            Some((github_owner, github_repo)) => Client { github_owner, github_repo },
            None => Client { github_owner: String::new(), github_repo: String::new() },
        }
    }

    /// The address that lists the repository's releases.
    pub fn releases_url(&self) -> (r: String)
        ensures
            r@ == "https://api.github.com/repos/"@ + self.github_owner@ + "/"@ + self.github_repo@
                + "/releases"@,
    {
        let mut r = "https://api.github.com/repos/".to_string();
        r.append(self.github_owner.as_str());
        r.append("/");
        r.append(self.github_repo.as_str());
        r.append("/releases");
        r
    }
}

/// The headers of a request to the GitHub API: the user agent, the media
/// type and the API version, then the extra ones.
pub fn request_headers(user_agent: &str, extra: &Vec<(String, String)>) -> (r: Vec<(String, String)>)
    ensures
        r@.len() == extra@.len() + 3,
        r@[0].0@ == "User-Agent"@ && r@[0].1@ == user_agent@,
        r@[1].0@ == "Accept"@ && r@[1].1@ == "application/vnd.github+json"@,
        r@[2].0@ == "X-GitHub-Api-Version"@ && r@[2].1@ == "2022-11-28"@,
        forall|i: int|
            0 <= i < extra@.len() ==> #[trigger] r@[i + 3].0@ == extra@[i].0@ && r@[i + 3].1@
                == extra@[i].1@,
{
    let mut r: Vec<(String, String)> = Vec::new();
    r.push(("User-Agent".to_string(), user_agent.to_string()));
    r.push(("Accept".to_string(), "application/vnd.github+json".to_string()));
    r.push(("X-GitHub-Api-Version".to_string(), "2022-11-28".to_string()));
    let mut i: usize = 0;
    while i < extra.len()
        invariant
            i <= extra@.len(),
            r@.len() == i + 3,
            r@[0].0@ == "User-Agent"@ && r@[0].1@ == user_agent@,
            r@[1].0@ == "Accept"@ && r@[1].1@ == "application/vnd.github+json"@,
            r@[2].0@ == "X-GitHub-Api-Version"@ && r@[2].1@ == "2022-11-28"@,
            forall|k: int|
                0 <= k < i ==> #[trigger] r@[k + 3].0@ == extra@[k].0@ && r@[k + 3].1@
                    == extra@[k].1@,
        decreases extra@.len() - i,
    {
        r.push((extra[i].0.clone(), extra[i].1.clone()));
        i = i + 1;
    }
    r
}

/// The tag of the release of a version: `v` and the version.
pub fn release_version_tag(version: &str) -> (r: String)
    ensures
        r@ == "v"@ + version@,
{
    let mut r = "v".to_string();
    r.append(version);
    r
}

/// The index of the first release with a tag.
pub open spec fn release_index(rs: Seq<Release>, tag: Seq<char>) -> Option<int>
    decreases rs.len(),
{
    if rs.len() == 0 {
        None
    } else {
        match release_index(rs.drop_last(), tag) {
            Some(i) => Some(i),
            None => if rs.last().tag_name@ == tag {
                Some(rs.len() - 1)
            } else {
                None
            },
        }
    }
}

/// Whether an asset has a name.
pub open spec fn asset_named(a: ReleaseAsset, name: Seq<char>) -> bool {
    a.name matches Some(n) && n@ == name
}

/// The index of the first asset with a name.
pub open spec fn asset_index(assets: Seq<ReleaseAsset>, name: Seq<char>) -> Option<int>
    decreases assets.len(),
{
    if assets.len() == 0 {
        None
    } else {
        match asset_index(assets.drop_last(), name) {
            Some(i) => Some(i),
            None => if asset_named(assets.last(), name) {
                Some(assets.len() - 1)
            } else {
                None
            },
        }
    }
}

/// A first index found by scanning is the first index with the property.
proof fn lemma_release_index(rs: Seq<Release>, tag: Seq<char>, i: int)
    requires
        0 <= i < rs.len(),
        rs[i].tag_name@ == tag,
        forall|k: int| 0 <= k < i ==> rs[k].tag_name@ != tag,
    ensures
        release_index(rs, tag) == Some(i),
    decreases rs.len(),
{
    if i < rs.len() - 1 {
        let d = rs.drop_last();
        assert forall|k: int| 0 <= k < i implies d[k].tag_name@ != tag by {
            assert(d[k] == rs[k]);
        }
        lemma_release_index(d, tag, i);
    } else {
        lemma_release_index_none(rs.drop_last(), tag);
    }
}

/// Where no release has the tag, none is found.
proof fn lemma_release_index_none(rs: Seq<Release>, tag: Seq<char>)
    requires
        forall|k: int| 0 <= k < rs.len() ==> rs[k].tag_name@ != tag,
    ensures
        release_index(rs, tag) is None,
    decreases rs.len(),
{
    if rs.len() > 0 {
        let d = rs.drop_last();
        assert forall|k: int| 0 <= k < d.len() implies d[k].tag_name@ != tag by {
            assert(d[k] == rs[k]);
        }
        lemma_release_index_none(d, tag);
    }
}

/// A first index found by scanning is the first index with the property.
proof fn lemma_asset_index(a: Seq<ReleaseAsset>, name: Seq<char>, i: int)
    requires
        0 <= i < a.len(),
        asset_named(a[i], name),
        forall|k: int| 0 <= k < i ==> !asset_named(#[trigger] a[k], name),
    ensures
        asset_index(a, name) == Some(i),
    decreases a.len(),
{
    if i < a.len() - 1 {
        let d = a.drop_last();
        assert forall|k: int| 0 <= k < i implies !asset_named(d[k], name) by {
            assert(d[k] == a[k]);
        }
        lemma_asset_index(d, name, i);
    } else {
        lemma_asset_index_none(a.drop_last(), name);
    }
}

/// Where no asset has the name, none is found.
proof fn lemma_asset_index_none(a: Seq<ReleaseAsset>, name: Seq<char>)
    requires
        forall|k: int| 0 <= k < a.len() ==> !asset_named(#[trigger] a[k], name),
    ensures
        asset_index(a, name) is None,
    decreases a.len(),
{
    if a.len() > 0 {
        let d = a.drop_last();
        assert forall|k: int| 0 <= k < d.len() implies !asset_named(d[k], name) by {
            assert(d[k] == a[k]);
        }
        lemma_asset_index_none(d, name);
    }
}

/// The release with a tag among all releases, or the message that there is
/// none.
pub fn find_release(releases: &Vec<Release>, tag: &str) -> (r: Result<usize, String>)
    ensures
        match r {
            Ok(i) => release_index(releases@, tag@) == Some(i as int),
            Err(m) => release_index(releases@, tag@) is None && m@ == "Failed to find release for version "@
                + tag@,
        },
{
    let t = str_chars(tag);
    let mut i: usize = 0;
    while i < releases.len()
        invariant
            i <= releases@.len(),
            t@ == tag@,
            forall|k: int| 0 <= k < i ==> releases@[k].tag_name@ != tag@,
        decreases releases@.len() - i,
    {
        if crate::text::chars_eq(str_chars(releases[i].tag_name.as_str()).as_slice(), t.as_slice()) {
            proof {
                lemma_release_index(releases@, tag@, i as int);
            }
            return Ok(i);
        }
        i = i + 1;
    }
    proof {
        lemma_release_index_none(releases@, tag@);
    }
    let mut m = "Failed to find release for version ".to_string();
    m.append(tag);
    Err(m)
}

/// The asset with a name in a release, or the message that there is none.
pub fn find_release_asset(release: &Release, asset_name: &str) -> (r: Result<usize, String>)
    ensures
        match r {
            Ok(i) => asset_index(release.assets@, asset_name@) == Some(i as int),
            Err(m) => asset_index(release.assets@, asset_name@) is None && m@
                == "Failed to find release asset '"@ + asset_name@ + "' for release '"@
                + release.tag_name@ + "'"@,
        },
{
    let t = str_chars(asset_name);
    let mut i: usize = 0;
    while i < release.assets.len()
        invariant
            i <= release.assets@.len(),
            t@ == asset_name@,
            forall|k: int|
                0 <= k < i ==> !asset_named(#[trigger] release.assets@[k], asset_name@),
        decreases release.assets@.len() - i,
    {
        let found = match &release.assets[i].name {
            Some(n) => crate::text::chars_eq(str_chars(n.as_str()).as_slice(), t.as_slice()),
            None => false,
        };
        if found {
            proof {
                lemma_asset_index(release.assets@, asset_name@, i as int);
            }
            return Ok(i);
        }
        i = i + 1;
    }
    proof {
        lemma_asset_index_none(release.assets@, asset_name@);
    }
    let mut m = "Failed to find release asset '".to_string();
    m.append(asset_name);
    m.append("' for release '");
    m.append(release.tag_name.as_str());
    m.append("'");
    Err(m)
}

} // verus!
