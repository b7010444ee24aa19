//! Frame headers: ordered lists of key/value pairs, lookups by key, and the
//! typed readings of the headers the session acts on.
use vstd::prelude::*;
use crate::connection::HeartBeat;
use crate::text::{parse_u32, parse_u32_chars};

verus! {

/// A header as the protocol sees it: its key and its value.
pub type HeaderView = (Seq<char>, Seq<char>);

/// One `key:value` line of a frame.
#[derive(Debug)]
pub struct Header {
    pub key: String,
    pub value: String,
}

impl View for Header {
    type V = HeaderView;

    open spec fn view(&self) -> HeaderView {
        (self.key@, self.value@)
    }
}

impl Clone for Header {
    fn clone(&self) -> (r: Self)
        ensures
            r@ == self@,
    {
        Header { key: self.key.clone(), value: self.value.clone() }
    }
}

impl Header {
    pub fn new(key: &str, value: &str) -> (h: Header)
        ensures
            h@ == (key@, value@),
    {
        Header { key: key.to_owned(), value: value.to_owned() }
    }

    pub fn get_key(&self) -> (k: &str)
        ensures
            k@ == self@.0,
    {
        self.key.as_str()
    }

    pub fn get_value(&self) -> (v: &str)
        ensures
            v@ == self@.1,
    {
        self.value.as_str()
    }
}

/// A header key that is to be left out of a frame.
pub struct SuppressedHeader<'a>(pub &'a str);

/// The MIME type of a frame's body, sent as its `content-type` header.
pub struct ContentType<'a>(pub &'a str);

/// The value of the first header in `hs` whose key is `key`.
pub open spec fn lookup(hs: Seq<HeaderView>, key: Seq<char>) -> Option<Seq<char>>
    decreases hs.len(),
{
    if hs.len() == 0 {
        None
    } else if hs[0].0 == key {
        Some(hs[0].1)
    } else {
        lookup(hs.drop_first(), key)
    }
}

/// `hs` with every header whose key is `key` left out, the others in order.
pub open spec fn without_key(hs: Seq<HeaderView>, key: Seq<char>) -> Seq<HeaderView>
    decreases hs.len(),
{
    if hs.len() == 0 {
        hs
    } else if hs.last().0 == key {
        without_key(hs.drop_last(), key)
    } else {
        without_key(hs.drop_last(), key).push(hs.last())
    }
}

/// The first occurrence of `key` decides a lookup: a prefix with no header of
/// that key can be skipped.
proof fn lemma_lookup_skip(hs: Seq<HeaderView>, key: Seq<char>, i: int)
    requires
        0 <= i <= hs.len(),
        forall|j: int| 0 <= j < i ==> (#[trigger] hs[j]).0 != key,
    ensures
        lookup(hs, key) == lookup(hs.subrange(i, hs.len() as int), key),
    decreases i,
{
    if i > 0 {
        lemma_lookup_skip(hs.drop_first(), key, i - 1);
        assert(hs.drop_first().subrange(i - 1, hs.drop_first().len() as int)
            =~= hs.subrange(i, hs.len() as int));
    } else {
        assert(hs.subrange(0, hs.len() as int) =~= hs);
    }
}

/// Looking up a key after pushing a header of that key finds the first
/// header of that key that was already there, or else the new one.
pub proof fn lemma_lookup_push(hs: Seq<HeaderView>, h: HeaderView, key: Seq<char>)
    ensures
        lookup(hs.push(h), key) == (match lookup(hs, key) {
            Some(v) => Some(v),
            None => if h.0 == key { Some(h.1) } else { None },
        }),
    decreases hs.len(),
{
    if hs.len() == 0 {
        assert(hs.push(h).drop_first() =~= Seq::<HeaderView>::empty());
        assert(lookup(Seq::<HeaderView>::empty(), key) is None);
        assert(hs.push(h)[0] == h);
    } else {
        assert(hs.push(h)[0] == hs[0]);
        lemma_lookup_push(hs.drop_first(), h, key);
        assert(hs.push(h).drop_first() =~= hs.drop_first().push(h));
    }
}

/// After the headers of a key are left out, a lookup of that key finds
/// nothing.
pub proof fn lemma_lookup_without_key(hs: Seq<HeaderView>, key: Seq<char>)
    ensures
        lookup(without_key(hs, key), key) is None,
    decreases hs.len(),
{
    if hs.len() > 0 {
        lemma_lookup_without_key(hs.drop_last(), key);
        lemma_lookup_push(without_key(hs.drop_last(), key), hs.last(), key);
    }
}

/// The headers of a frame, in the order in which they are written.
#[derive(Debug)]
pub struct HeaderList {
    pub headers: Vec<Header>,
}

impl View for HeaderList {
    type V = Seq<HeaderView>;

    open spec fn view(&self) -> Seq<HeaderView> {
        views(self.headers@)
    }
}

/// The protocol's view of a sequence of headers.
pub open spec fn views(hs: Seq<Header>) -> Seq<HeaderView> {
    hs.map_values(|h: Header| h@)
}

impl Clone for HeaderList {
    fn clone(&self) -> (r: Self)
        ensures
            r@ == self@,
    {
        let mut headers: Vec<Header> = Vec::new();
        let mut i: usize = 0;
        while i < self.headers.len()
            invariant
                i <= self.headers.len(),
                views(headers@) =~= self@.subrange(0, i as int),
            decreases self.headers.len() - i,
        {
            let h = self.headers[i].clone();
            assert(h@ == self@[i as int]);
            let ghost before = headers@;
            headers.push(h);
            assert(views(headers@) =~= views(before).push(h@));
            assert(self@.subrange(0, i + 1) =~= self@.subrange(0, i as int).push(h@));
            i = i + 1;
        }
        HeaderList { headers }
    }
}

impl HeaderList {
    pub fn new() -> (l: HeaderList)
        ensures
            l@ == Seq::<HeaderView>::empty(),
    {
        HeaderList { headers: Vec::new() }
    }

    pub fn len(&self) -> (n: usize)
        ensures
            n == self@.len(),
    {
        self.headers.len()
    }

    /// Adds a header after the others.
    pub fn push(&mut self, header: Header)
        ensures
            final(self)@ == old(self)@.push(header@),
    {
        self.headers.push(header);
        assert(self@ =~= old(self)@.push(header@));
    }

    /// Moves every header of `other` to the end of this list, in order.
    pub fn concat(&mut self, other: &mut HeaderList)
        ensures
            final(self)@ == old(self)@ + old(other)@,
            final(other)@ == Seq::<HeaderView>::empty(),
    {
        let ghost start = self@;
        let mut taken: Vec<Header> = Vec::new();
        std::mem::swap(&mut taken, &mut other.headers);
        let mut i: usize = 0;
        while i < taken.len()
            invariant
                i <= taken.len(),
                self@ =~= start + views(taken@).subrange(0, i as int),
            decreases taken.len() - i,
        {
            let h = taken[i].clone();
            assert(h@ == views(taken@)[i as int]);
            let ghost before = self.headers@;
            self.headers.push(h);
            assert(views(self.headers@) =~= views(before).push(h@));
            assert(views(taken@).subrange(0, i + 1) =~= views(taken@).subrange(0, i as int).push(h@));
            i = i + 1;
        }
        assert(views(taken@).subrange(0, i as int)
            =~= views(taken@));
        assert(other@ =~= Seq::<HeaderView>::empty());
    }

    /// Leaves out every header whose key is `key`, keeping the others in
    /// order.
    pub fn remove_key(&mut self, key: &str)
        ensures
            final(self)@ == without_key(old(self)@, key@),
    {
        let k = key.to_owned();
        let ghost all = self@;
        let mut kept: Vec<Header> = Vec::new();
        let mut i: usize = 0;
        while i < self.headers.len()
            invariant
                i <= self.headers.len(),
                all == self@,
                k@ == key@,
                views(kept@) =~= without_key(all.subrange(0, i as int), key@),
            decreases self.headers.len() - i,
        {
            let ghost prefix = all.subrange(0, i + 1);
            assert(prefix.drop_last() =~= all.subrange(0, i as int));
            if self.headers[i].key != k {
                let h = self.headers[i].clone();
                let ghost before = kept@;
                kept.push(h);
                assert(views(kept@) =~= views(before).push(h@));
            }
            i = i + 1;
        }
        assert(all.subrange(0, i as int) =~= all);
        self.headers = kept;
    }

    /// The value of the first header whose key is `key`.
    pub fn get_value(&self, key: &str) -> (v: Option<String>)
        ensures
            v matches Some(s) ==> lookup(self@, key@) == Some(s@),
            v is None <==> lookup(self@, key@) is None,
    {
        let k = key.to_owned();
        let mut i: usize = 0;
        while i < self.headers.len()
            invariant
                i <= self.headers.len(),
                k@ == key@,
                forall|j: int| 0 <= j < i ==> (#[trigger] self@[j]).0 != key@,
            decreases self.headers.len() - i,
        {
            if self.headers[i].key == k {
                proof {
                    lemma_lookup_skip(self@, key@, i as int);
                    assert(self@.subrange(i as int, self@.len() as int)[0] == self@[i as int]);
                }
                return Some(self.headers[i].value.clone());
            }
            i = i + 1;
        }
        proof {
            lemma_lookup_skip(self@, key@, i as int);
        }
        None
    }

    /// The id of the message that an `ack` header asks to acknowledge.
    pub fn get_ack(&self) -> (v: Option<String>)
        ensures
            v matches Some(s) ==> lookup(self@, "ack"@) == Some(s@),
            v is None <==> lookup(self@, "ack"@) is None,
    {
        self.get_value("ack")
    }

    /// The subscription a MESSAGE frame was delivered for.
    pub fn get_subscription(&self) -> (v: Option<String>)
        ensures
            v matches Some(s) ==> lookup(self@, "subscription"@) == Some(s@),
            v is None <==> lookup(self@, "subscription"@) is None,
    {
        self.get_value("subscription")
    }

    /// The receipt a RECEIPT frame answers.
    pub fn get_receipt_id(&self) -> (v: Option<String>)
        ensures
            v matches Some(s) ==> lookup(self@, "receipt-id"@) == Some(s@),
            v is None <==> lookup(self@, "receipt-id"@) is None,
    {
        self.get_value("receipt-id")
    }

    /// The destination a frame is addressed to.
    pub fn get_destination(&self) -> (v: Option<String>)
        ensures
            v matches Some(s) ==> lookup(self@, "destination"@) == Some(s@),
            v is None <==> lookup(self@, "destination"@) is None,
    {
        self.get_value("destination")
    }

    /// The heart-beat intervals of a `heart-beat` header, `None` where there
    /// is no such header or its value is not two decimal intervals separated
    /// by a comma.
    pub fn get_heart_beat(&self) -> (hb: Option<HeartBeat>)
        ensures
            hb == (match lookup(self@, "heart-beat"@) {
                Some(v) => parse_heart_beat(v),
                None => None,
            }),
    {
        match self.get_value("heart-beat") {
            Some(v) => parse_heart_beat_value(v.as_str()),
            None => None,
        }
    }
}

/// The index of the first comma in `s`.
pub open spec fn first_comma(s: Seq<char>) -> Option<int> {
    if exists|i: int| 0 <= i < s.len() && s[i] == ',' {
        Some(choose|i: int| 0 <= i < s.len() && s[i] == ','
            && forall|j: int| 0 <= j < i ==> s[j] != ',')
    } else {
        None
    }
}

/// A heart-beat header value `tx,rx`: two decimal `u32` intervals in
/// milliseconds around one comma.
pub open spec fn parse_heart_beat(s: Seq<char>) -> Option<HeartBeat> {
    match first_comma(s) {
        Some(c) => match (parse_u32(s.subrange(0, c)), parse_u32(s.subrange(c + 1, s.len() as int))) {
            (Some(tx), Some(rx)) => Some(HeartBeat(tx, rx)),
            _ => None,
        },
        None => None,
    }
}

/// Reads a heart-beat header value.
pub fn parse_heart_beat_value(s: &str) -> (hb: Option<HeartBeat>)
    ensures
        hb == parse_heart_beat(s@),
{
    let n = s.unicode_len();
    let mut i: usize = 0;
    while i < n
        invariant
            i <= n == s@.len(),
            forall|j: int| 0 <= j < i ==> s@[j] != ',',
        decreases n - i,
    {
        if s.get_char(i) == ',' {
            let ghost c = first_comma(s@);
            assert(c == Some(i as int)) by {
                let k = choose|k: int| 0 <= k < s@.len() && s@[k] == ','
                    && forall|j: int| 0 <= j < k ==> s@[j] != ',';
                assert(s@[i as int] == ',');
                if k < i {
                } else if k > i {
                    assert(s@[i as int] != ',');
                }
            }
            let tx = parse_u32_chars(s, 0, i);
            let rx = parse_u32_chars(s, i + 1, n);
            return match (tx, rx) {
                (Some(t), Some(r)) => Some(HeartBeat(t, r)),
                _ => None,
            };
        }
        i = i + 1;
    }
    None
}

} // verus!
