//! Reading the answer of the release service.

use vstd::prelude::*;
use crate::entities::ReleaseInfo;
use crate::text::{chars_of, owned, string_from};
use crate::version::strip_v;

verus! {

/// The release described by a published tag and its page: the version is the tag without
/// one leading `v`.
pub fn release_from_tag(tag_name: &str, html_url: String) -> (r: ReleaseInfo)
    ensures
        r.version@ == strip_v(tag_name@),
        r.url@ == html_url@,
{
    let s = chars_of(tag_name);
    let version = if s.len() > 0 && s[0] == 'v' {
        assert(s@.subrange(1, s@.len() as int) =~= s@.drop_first());
        string_from(&s.as_slice()[1..s.len()])
    } else {
        owned(tag_name)
    };
    ReleaseInfo { version, url: html_url }
}

} // verus!
