//! The outside pages that the app links to.
use vstd::prelude::*;

verus! {

/// A page the app can open in the browser.
#[derive(Debug, Clone, Copy, PartialEq, Eq, Structural)]
pub enum Link {
    Support,
    DeeplSignup,
    DeeplKeys,
}

pub open spec fn link_url(link: Link) -> Seq<char> {
    match link {
        Link::Support => "https://buymeacoffee.com/luizfbalves"@,
        Link::DeeplSignup => "https://www.deepl.com/pro-api"@,
        Link::DeeplKeys => "https://www.deepl.com/your-account/keys"@,
    }
}

/// The address of a link.
pub fn url(link: Link) -> (r: &'static str)
    ensures
        r@ == link_url(link),
{
    match link {
        Link::Support => "https://buymeacoffee.com/luizfbalves",
        Link::DeeplSignup => "https://www.deepl.com/pro-api",
        Link::DeeplKeys => "https://www.deepl.com/your-account/keys",
    }
}

} // verus!
