use vstd::prelude::*;

verus! {

/// Number of tags asked for in one page.
pub const TAGS_PER_PAGE: usize = 100;

/// The address of the remote's tag listing, before its query string.
pub const TAGS_URL: &'static str = "https://api.github.com/repos/NixOS/nix/tags";

/// The decimal digit of `d`.
pub open spec fn digit_char(d: nat) -> char {
    "0123456789"@[d as int]
}

/// The decimal notation of `n`, without leading zeros.
pub open spec fn decimal(n: nat) -> Seq<char>
    decreases n,
{
    if n < 10 {
        seq![digit_char(n)]
    } else {
        decimal(n / 10).push(digit_char(n % 10))
    }
}

/// The address of one page of the tag listing.
pub open spec fn page_url_of(page: nat) -> Seq<char> {
    TAGS_URL@ + "?per_page="@ + decimal(TAGS_PER_PAGE as nat) + "&page="@ + decimal(page)
}

/// Writes `n` in decimal.
pub fn decimal_text(n: usize) -> (r: String)
    ensures
        r@ == decimal(n as nat),
{
    proof {
        reveal_strlit("0123456789");
    }
    let digits = "0123456789";
    let mut m: usize = n;
    let mut out = String::new();
    loop
        invariant
            m > 0 || n == 0,
            digits@ == "0123456789"@,
            digits@.len() == 10,
            decimal(n as nat) == decimal(m as nat) + out@,
        decreases m,
    {
        let d = m % 10;
        let c = digits.substring_char(d, d + 1);
        assert(c@ =~= seq![digit_char(d as nat)]);
        let mut t = c.to_string();
        t.append(out.as_str());
        if m < 10 {
            assert(decimal(m as nat) == seq![digit_char(m as nat)]);
            assert(t@ =~= decimal(m as nat) + out@);
            return t;
        }
        assert(decimal(m as nat) == decimal((m / 10) as nat).push(digit_char(d as nat)));
        assert(decimal((m / 10) as nat) + t@ =~= decimal(m as nat) + out@);
        out = t;
        m = m / 10;
    }
}

/// The address of page `page` (counted from one) of the tag listing.
pub fn page_url(page: usize) -> (r: String)
    ensures
        r@ == page_url_of(page as nat),
{
    let mut url = TAGS_URL.to_string();
    url.append("?per_page=");
    url.append(decimal_text(TAGS_PER_PAGE).as_str());
    url.append("&page=");
    url.append(decimal_text(page).as_str());
    url
}

/// Walks the pages of the tag listing: pages are fetched one at a time from
/// the first, until one comes back empty.
#[derive(Clone, Debug)]
pub struct TagPager {
    /// The page to be fetched next.
    pub page: usize,
    /// The tag names of all pages received so far, in order.
    pub names: Vec<String>,
}

impl TagPager {
    /// A walk that has received nothing and asks for the first page.
    pub fn new() -> (r: TagPager)
        ensures
            r.page == 1,
            r.names@.len() == 0,
    {
        TagPager { page: 1, names: Vec::new() }
    }

    /// The address of the page to be fetched next.
    pub fn next_url(&self) -> (r: String)
        ensures
            r@ == page_url_of(self.page as nat),
    {
        page_url(self.page)
    }

    /// Takes the tag names of the page just fetched; returns whether another
    /// page is to be fetched. An empty page ends the walk and changes nothing.
    pub fn accept(&mut self, batch: Vec<String>) -> (more: bool)
        requires
            batch@.len() > 0 ==> old(self).page < usize::MAX,
        ensures
            more == (batch@.len() > 0),
            more ==> final(self).page == old(self).page + 1 && final(self).names@ == old(
                self,
            ).names@ + batch@,
            !more ==> *final(self) == *old(self),
    {
        if batch.len() == 0 {
            return false;
        }
        let mut batch = batch;
        self.names.append(&mut batch);
        self.page = self.page + 1;
        true
    }
}

} // verus!
