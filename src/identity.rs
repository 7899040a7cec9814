//! How an author is shown on the destination channels.
use vstd::prelude::*;

verus! {

/// The longest display name that the posting endpoint accepts, in characters.
pub const MAX_NAME_CHARS: usize = 80;

/// The author of an inbound message, as the event carries it.
pub struct Author {
    pub id: u64,
    pub name: String,
    /// The hash of the custom avatar, when the author has one.
    pub avatar: Option<String>,
    /// The legacy four-digit discriminator; 0 under the global-name scheme.
    pub discriminator: u16,
    pub bot: bool,
}

/// The index of the platform's default avatar for an author without a custom one.
pub open spec fn spec_default_avatar_index(author_id: u64, discriminator: u16) -> u64 {
    if discriminator == 0 {
        (author_id >> 22u64) % 5
    } else {
        (discriminator % 5) as u64
    }
}

pub open spec fn digit_char(d: nat) -> char {
    if d == 0 { '0' }
    else if d == 1 { '1' }
    else if d == 2 { '2' }
    else if d == 3 { '3' }
    else if d == 4 { '4' }
    else if d == 5 { '5' }
    else if d == 6 { '6' }
    else if d == 7 { '7' }
    else if d == 8 { '8' }
    else { '9' }
}

/// The decimal digits of `n`, most significant first, without leading zeros.
pub open spec fn decimal(n: nat) -> Seq<char>
    decreases n,
{
    if n < 10 {
        seq![digit_char(n)]
    } else {
        decimal(n / 10).push(digit_char(n % 10))
    }
}

/// The last path segment of the avatar image, before its extension.
pub open spec fn avatar_segment(author_id: u64, avatar: Option<Seq<char>>, discriminator: u16) -> Seq<char> {
    match avatar {
        Some(hash) => hash,
        None => decimal(spec_default_avatar_index(author_id, discriminator) as nat),
    }
}

/// `https://cdn.discordapp.com/avatars/<author id>/<hash or default index>.png`
pub open spec fn spec_avatar_url(author_id: u64, avatar: Option<Seq<char>>, discriminator: u16) -> Seq<char> {
    "https://cdn.discordapp.com/avatars/"@ + decimal(author_id as nat) + "/"@
        + avatar_segment(author_id, avatar, discriminator) + ".png"@
}

/// The name shown on the destinations: the author's name, cut to the endpoint's limit.
pub open spec fn spec_display_name(name: Seq<char>) -> Seq<char> {
    if name.len() <= MAX_NAME_CHARS {
        name
    } else {
        name.subrange(0, MAX_NAME_CHARS as int)
    }
}

pub open spec fn opt_view(o: Option<String>) -> Option<Seq<char>> {
    match o {
        Some(s) => Some(s@),
        None => None,
    }
}

pub fn default_avatar_index(author_id: u64, discriminator: u16) -> (r: u64)
    ensures
        r == spec_default_avatar_index(author_id, discriminator),
        r < 5,
{
    if discriminator == 0 {
        (author_id >> 22u64) % 5
    } else {
        (discriminator % 5) as u64
    }
}

fn digit_str(d: u64) -> (r: &'static str)
    requires
        d < 10,
    ensures
        r@ == seq![digit_char(d as nat)],
{
    if d == 0 {
        proof { reveal_strlit("0"); }
        "0"
    } else if d == 1 {
        proof { reveal_strlit("1"); }
        "1"
    } else if d == 2 {
        proof { reveal_strlit("2"); }
        "2"
    } else if d == 3 {
        proof { reveal_strlit("3"); }
        "3"
    } else if d == 4 {
        proof { reveal_strlit("4"); }
        "4"
    } else if d == 5 {
        proof { reveal_strlit("5"); }
        "5"
    } else if d == 6 {
        proof { reveal_strlit("6"); }
        "6"
    } else if d == 7 {
        proof { reveal_strlit("7"); }
        "7"
    } else if d == 8 {
        proof { reveal_strlit("8"); }
        "8"
    } else {
        proof { reveal_strlit("9"); }
        "9"
    }
}

/// Writes `n` in decimal.
pub fn decimal_string(n: u64) -> (r: String)
    ensures
        r@ == decimal(n as nat),
    decreases n,
{
    if n < 10 {
        String::from_str(digit_str(n))
    } else {
        let mut s = decimal_string(n / 10);
        s.append(digit_str(n % 10));
        s
    }
}

/// The URL of the avatar image to post under: the custom avatar when there is
/// one, else the platform's default avatar for the author.
pub fn avatar_url(author: &Author) -> (r: String)
    ensures
        r@ == spec_avatar_url(author.id, opt_view(author.avatar), author.discriminator),
{
    let segment = match &author.avatar {
        Some(hash) => hash.clone(),
        None => decimal_string(default_avatar_index(author.id, author.discriminator)),
    };
    let mut url = String::from_str("https://cdn.discordapp.com/avatars/");
    let id = decimal_string(author.id);
    url.append(id.as_str());
    url.append("/");
    url.append(segment.as_str());
    url.append(".png");
    url
}

/// The author's name, cut to the first `MAX_NAME_CHARS` characters when longer.
pub fn display_name(name: &String) -> (r: String)
    ensures
        r@ == spec_display_name(name@),
{
    let s = name.as_str();
    let len = s.unicode_len();
    if len <= MAX_NAME_CHARS {
        name.clone()
    } else {
        String::from_str(s.substring_char(0, MAX_NAME_CHARS))
    }
}

} // verus!
