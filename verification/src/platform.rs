//! Which platform a channel belongs to, told from its address.

use crate::keys::has_prefix;
use crate::model::PlatformKind;
use vstd::prelude::*;
use vstd::string::*;

verus! {

/// The text in lower case, as Unicode defines it.
pub uninterp spec fn lowercase(s: Seq<char>) -> Seq<char>;

/// The text in lower case.
///
/// Trusted: calls `str::to_lowercase`, whose result depends on the text
/// alone.
#[verifier::external_body]
fn to_lowercase(s: &str) -> (r: String)
    ensures
        r@ == lowercase(s@),
{
    s.to_lowercase()
}

/// Whether `s` begins with `prefix`.
pub fn starts_with(s: &str, prefix: &str) -> (r: bool)
    ensures
        r == has_prefix(s@, prefix@),
{
    let n = prefix.unicode_len();
    if s.unicode_len() < n {
        return false;
    }
    let mut i: usize = 0;
    while i < n
        invariant
            n == prefix@.len(),
            n <= s@.len(),
            i <= n,
            forall|j: int| 0 <= j < i ==> s@[j] == prefix@[j],
        decreases n - i,
    {
        if s.get_char(i) != prefix.get_char(i) {
            assert(s@.subrange(0, n as int)[i as int] != prefix@[i as int]);
            return false;
        }
        i += 1;
    }
    assert(s@.subrange(0, n as int) =~= prefix@);
    true
}

/// Whether the two texts are the same.
pub fn same_text(a: &str, b: &str) -> (r: bool)
    ensures
        r == (a@ == b@),
{
    if a.unicode_len() != b.unicode_len() {
        return false;
    }
    let r = starts_with(a, b);
    assert(a@.subrange(0, a@.len() as int) =~= a@);
    r
}

/// The platform that the lower-case address or name `u` stands for.
pub open spec fn platform_of(u: Seq<char>) -> PlatformKind {
    if has_prefix(u, "https://live.douyin.com/"@) || has_prefix(u, "https://v.douyin.com/"@) || u
        == "douyin"@ {
        PlatformKind::Douyin
    } else if has_prefix(u, "https://www.tiktok.com/"@) || u == "tiktok"@ {
        PlatformKind::Tiktok
    } else if has_prefix(u, "https://www.xiaohongshu.com/"@) || u == "xiaohongshu"@ {
        PlatformKind::Xiaohongshu
    } else if has_prefix(u, "https://www.huya.com/"@) || u == "huya"@ {
        PlatformKind::Huya
    } else {
        PlatformKind::Unknown
    }
}

impl PlatformKind {
    /// The name of the platform, as directories are named after it.
    pub open spec fn spec_name(self) -> Seq<char> {
        match self {
            PlatformKind::Douyin => "Douyin"@,
            PlatformKind::Tiktok => "Tiktok"@,
            PlatformKind::Xiaohongshu => "Xiaohongshu"@,
            PlatformKind::Bilibili => "Bilibili"@,
            PlatformKind::Huya => "Huya"@,
            PlatformKind::Kuaishou => "Kuaishou"@,
            PlatformKind::Douyu => "Douyu"@,
            PlatformKind::Twitch => "Twitch"@,
            PlatformKind::Youtube => "Youtube"@,
            PlatformKind::Unknown => "Unknown"@,
        }
    }

    /// The name of the platform.
    pub fn name(&self) -> (n: &'static str)
        ensures
            n@ == self.spec_name(),
    {
        match self {
            PlatformKind::Douyin => "Douyin",
            PlatformKind::Tiktok => "Tiktok",
            PlatformKind::Xiaohongshu => "Xiaohongshu",
            PlatformKind::Bilibili => "Bilibili",
            PlatformKind::Huya => "Huya",
            PlatformKind::Kuaishou => "Kuaishou",
            PlatformKind::Douyu => "Douyu",
            PlatformKind::Twitch => "Twitch",
            PlatformKind::Youtube => "Youtube",
            PlatformKind::Unknown => "Unknown",
        }
    }

    /// The platform of a channel, told from its address: the address of one
    /// of the known sites, or the bare name of one, in any case of letters.
    pub fn from_url(url: &str) -> (k: PlatformKind)
        ensures
            k == platform_of(lowercase(url@)),
    {
        let lower = to_lowercase(url);
        let u = lower.as_str();
        if starts_with(u, "https://live.douyin.com/") || starts_with(u, "https://v.douyin.com/")
            || same_text(u, "douyin") {
            PlatformKind::Douyin
        } else if starts_with(u, "https://www.tiktok.com/") || same_text(u, "tiktok") {
            PlatformKind::Tiktok
        } else if starts_with(u, "https://www.xiaohongshu.com/") || same_text(u, "xiaohongshu") {
            PlatformKind::Xiaohongshu
        } else if starts_with(u, "https://www.huya.com/") || same_text(u, "huya") {
            PlatformKind::Huya
        } else {
            PlatformKind::Unknown
        }
    }
}

} // verus!
