//! Proxy lookup: where a pre-rendered low-resolution stand-in for an
//! asset would live, and whether one is already on disk.

use vstd::prelude::*;
use vstd::string::StrSliceExecFns;
use vstd::string::StringExecFns;

verus! {

/// Where the proxy of an asset lives under a proxy directory:
/// `<dir>/<asset_id>.mp4`, without doubling a separator the directory
/// already ends in.
pub open spec fn proxy_file_spec(dir: Seq<char>, asset_id: Seq<char>) -> Seq<char> {
    if dir.len() == 0 {
        asset_id + ".mp4"@
    } else if dir.last() == '/' {
        dir + asset_id + ".mp4"@
    } else {
        dir + "/"@ + asset_id + ".mp4"@
    }
}

/// The path a proxy for the asset would have under the directory.
pub fn proxy_file_path(proxy_dir: &str, asset_id: &str) -> (r: String)
    ensures
        r@ == proxy_file_spec(proxy_dir@, asset_id@),
{
    let n = proxy_dir.unicode_len();
    let mut out = String::from_str(proxy_dir);
    if n > 0 && proxy_dir.get_char(n - 1) == '/' {
    } else if n > 0 {
        out.append("/");
    }
    out.append(asset_id);
    out.append(".mp4");
    proof {
        assert(out@ =~= proxy_file_spec(proxy_dir@, asset_id@));
    }
    out
}

/// Relies on `std::path::Path::exists`: whether something is on disk at
/// the path right now. The answer depends on the filesystem, so nothing
/// further is promised of it.
#[verifier::external_body]
fn path_exists(p: &str) -> bool {
    std::path::Path::new(p).exists()
}

/// The proxy path of the asset, if a proxy is on disk. Whichever way the
/// filesystem answers, a returned path is exactly the proxy location.
pub fn proxy_path(proxy_dir: &str, asset_id: &str) -> (r: Option<String>)
    ensures
        r matches Some(p) ==> p@ == proxy_file_spec(proxy_dir@, asset_id@),
{
    let p = proxy_file_path(proxy_dir, asset_id);
    if path_exists(p.as_str()) {
        Some(p)
    } else {
        None
    }
}

} // verus!
