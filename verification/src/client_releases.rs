//! The latest EasyTier release as the server reports it, with GitHub download
//! links sent through the download proxy.
use vstd::prelude::*;
use crate::text::{chars_of, concat_str, starts_with};

verus! {

pub struct ReleaseAsset {
    pub name: String,
    pub browser_download_url: String,
    pub size: u64,
}

pub struct Release {
    pub tag_name: String,
    pub prerelease: bool,
    pub assets: Vec<ReleaseAsset>,
}

pub struct ReleaseResponse {
    pub tag_name: String,
    pub prerelease: bool,
    pub assets: Vec<ReleaseAsset>,
}

pub struct LatestReleaseResponse {
    pub release: Option<ReleaseResponse>,
}

/// Downloads from this prefix are sent through the proxy.
pub open spec fn github_prefix() -> Seq<char> {
    "https://github.com/"@
}

/// The proxy that GitHub downloads are sent through.
pub open spec fn proxy_prefix() -> Seq<char> {
    "https://hub.04510451.xyz"@
}

pub open spec fn seq_starts_with(s: Seq<char>, p: Seq<char>) -> bool {
    p.len() <= s.len() && s.subrange(0, p.len() as int) == p
}

/// A GitHub URL becomes `<proxy>/<url>`; any other URL stays as it is.
pub open spec fn proxied(url: Seq<char>) -> Seq<char> {
    if seq_starts_with(url, github_prefix()) {
        proxy_prefix() + "/"@ + url
    } else {
        url
    }
}

pub struct AssetView {
    pub name: Seq<char>,
    pub url: Seq<char>,
    pub size: u64,
}

impl View for ReleaseAsset {
    type V = AssetView;

    open spec fn view(&self) -> AssetView {
        AssetView { name: self.name@, url: self.browser_download_url@, size: self.size }
    }
}

pub open spec fn assets_view(v: Seq<ReleaseAsset>) -> Seq<AssetView> {
    v.map_values(|a: ReleaseAsset| a@)
}

/// The assets with their download links proxied.
pub open spec fn proxied_assets(v: Seq<AssetView>) -> Seq<AssetView> {
    v.map_values(|a: AssetView| AssetView { url: proxied(a.url), ..a })
}

/// The URL of the GitHub API call that fetches the latest EasyTier release.
pub fn latest_release_url() -> (r: String)
    ensures
        r@ == "https://api.github.com/repos/EasyTier/EasyTier/releases/latest"@,
{
    String::from_str("https://api.github.com/repos/EasyTier/EasyTier/releases/latest")
}

/// A GitHub download URL sent through the proxy; other URLs unchanged.
pub fn proxy_download_url(url: &str) -> (r: String)
    ensures
        r@ == proxied(url@),
{
    let u = chars_of(url);
    let p = chars_of("https://github.com/");
    if starts_with(u.as_slice(), p.as_slice()) {
        let head = concat_str("https://hub.04510451.xyz", "/");
        concat_str(head.as_str(), url)
    } else {
        String::from_str(url)
    }
}

/// The server's answer: no release when GitHub did not answer with success,
/// else the release with every download link proxied.
pub fn latest_release_response(fetched: Option<Release>) -> (r: LatestReleaseResponse)
    ensures
        fetched is None ==> r.release is None,
        fetched matches Some(rel) ==> (r.release matches Some(resp) && resp.tag_name@
            == rel.tag_name@ && resp.prerelease == rel.prerelease && assets_view(resp.assets@)
            == proxied_assets(assets_view(rel.assets@))),
{
    match fetched {
        None => LatestReleaseResponse { release: None },
        Some(release) => {
            let ghost original = assets_view(release.assets@);
            let mut assets = release.assets;
            let mut out: Vec<ReleaseAsset> = Vec::new();
            let mut i: usize = 0;
            while i < assets.len()
                invariant
                    i <= assets.len(),
                    assets_view(assets@) == original,
                    assets_view(out@) == proxied_assets(original).take(i as int),
                decreases assets.len() - i,
            {
                let a = &assets[i];
                let proxied_url = proxy_download_url(a.browser_download_url.as_str());
                let na = ReleaseAsset {
                    name: a.name.clone(),
                    browser_download_url: proxied_url,
                    size: a.size,
                };
                let ghost before = out@;
                out.push(na);
                assert(assets_view(out@) =~= assets_view(before).push(na@));
                i = i + 1;
                assert(assets_view(out@) =~= proxied_assets(original).take(i as int));
            }
            assert(proxied_assets(original).take(assets.len() as int) =~= proxied_assets(original));
            LatestReleaseResponse {
                release: Some(
                    ReleaseResponse {
                        tag_name: release.tag_name,
                        prerelease: release.prerelease,
                        assets: out,
                    },
                ),
            }
        },
    }
}

/// Proxying is idempotent: a proxied link is not a GitHub link, so proxying it
/// again changes nothing.
pub proof fn lemma_proxy_idempotent(url: Seq<char>)
    ensures
        proxied(proxied(url)) == proxied(url),
{
    reveal_strlit("https://github.com/");
    reveal_strlit("https://hub.04510451.xyz");
    reveal_strlit("/");
    if seq_starts_with(url, github_prefix()) {
        let p = proxied(url);
        assert(p[8] == 'h');
        assert(github_prefix()[8] == 'g');
        assert(p.subrange(0, github_prefix().len() as int)[8] == 'h');
    }
}

} // verus!
