use vstd::prelude::*;

verus! {

/// One HTTP header, name and value.
#[derive(Debug)]
pub struct HeaderPair {
    pub name: String,
    pub value: String,
}

/// An HTTP response as stored for replay: status, ordered headers, raw body.
#[derive(Debug)]
pub struct SavedResponse {
    pub status: u16,
    pub headers: Vec<HeaderPair>,
    pub body: Vec<u8>,
}

/// The value of a stored response.
pub struct ResponseView {
    pub status: u16,
    pub headers: Seq<(Seq<char>, Seq<char>)>,
    pub body: Seq<u8>,
}

impl View for HeaderPair {
    type V = (Seq<char>, Seq<char>);

    open spec fn view(&self) -> (Seq<char>, Seq<char>) {
        (self.name@, self.value@)
    }
}

impl View for SavedResponse {
    type V = ResponseView;

    open spec fn view(&self) -> ResponseView {
        ResponseView {
            status: self.status,
            headers: self.headers@.map_values(|h: HeaderPair| h@),
            body: self.body@,
        }
    }
}

impl HeaderPair {
    pub fn duplicate(&self) -> (r: HeaderPair)
        ensures
            r@ == self@,
    {
        HeaderPair { name: self.name.clone(), value: self.value.clone() }
    }
}

/// HTTP status of a redirect to another page.
pub const SEE_OTHER: u16 = 303;

impl SavedResponse {
    /// A copy with the same status, headers in the same order, and body.
    pub fn replay(&self) -> (r: SavedResponse)
        ensures
            r@ == self@,
    {
        let mut headers: Vec<HeaderPair> = Vec::new();
        let mut i: usize = 0;
        while i < self.headers.len()
            invariant
                i <= self.headers@.len(),
                headers@.len() == i,
                forall|j: int| 0 <= j < i ==> (#[trigger] headers@[j])@ == self.headers@[j]@,
            decreases self.headers@.len() - i,
        {
            headers.push(self.headers[i].duplicate());
            i = i + 1;
        }
        let body = self.body.clone();
        let r = SavedResponse { status: self.status, headers, body };
        assert(r.body@ =~= self.body@);
        assert(r@.headers =~= self@.headers);
        r
    }

    /// A `303 See Other` redirect to `location`, with an empty body.
    pub fn see_other(location: &str) -> (r: SavedResponse)
        ensures
            r@.status == SEE_OTHER,
            r@.headers == seq![(location_header(), location@)],
            r@.body == Seq::<u8>::empty(),
    {
        let name = String::from_str("location");
        let value = String::from_str(location);
        let mut headers: Vec<HeaderPair> = Vec::new();
        headers.push(HeaderPair { name, value });
        let r = SavedResponse { status: SEE_OTHER, headers, body: Vec::new() };
        assert(r@.headers =~= seq![(location_header(), location@)]);
        assert(r@.body =~= Seq::<u8>::empty());
        r
    }
}

/// The name of the header that a redirect carries.
pub open spec fn location_header() -> Seq<char> {
    "location"@
}

} // verus!
