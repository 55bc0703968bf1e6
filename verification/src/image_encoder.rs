//! The image encoder: makes decoded images ready for the terminal, away from the drawing thread.
use vstd::prelude::*;

use image::DynamicImage;
use ratatui_image::picker::Picker;
use ratatui_image::protocol::StatefulProtocol;

use crate::image_cache::{encode_image, encoded_kind, holds_image, picker_kind};
use crate::text::{str_is, views};

verus! {

/// How many requests may wait for the encoder. Further ones are dropped.
pub const ENCODER_QUEUE: usize = 16;

/// A decoded image that is to be encoded.
pub struct EncodeRequest {
    /// The address or path of the image.
    pub key: String,
    pub image: DynamicImage,
}

/// An encoded image.
pub struct EncodeResult {
    /// The key of the request.
    pub key: String,
    pub protocol: StatefulProtocol,
}

/// Encodes an image for the protocol of the picker. The result carries the key of the request.
pub fn encode(picker: &Picker, request: EncodeRequest) -> (r: EncodeResult)
    ensures
        r.key == request.key,
        encoded_kind(r.protocol) == picker_kind(*picker),
        holds_image(r.protocol, request.image),
{
    let protocol = encode_image(picker, request.image);
    EncodeResult { key: request.key, protocol }
}

/// The images that the encoder is busy with.
pub struct EncodeQueue {
    pub waiting: Vec<String>,
}

impl View for EncodeQueue {
    type V = Seq<Seq<char>>;

    open spec fn view(&self) -> Seq<Seq<char>> {
        views(self.waiting@)
    }
}

/// The keys other than `key`.
pub open spec fn keys_without(keys: Seq<Seq<char>>, key: Seq<char>) -> Seq<Seq<char>>
    decreases keys.len(),
{
    if keys.len() == 0 {
        Seq::empty()
    } else if keys.last() == key {
        keys_without(keys.drop_last(), key)
    } else {
        keys_without(keys.drop_last(), key).push(keys.last())
    }
}

impl EncodeQueue {
    /// The encoder is idle.
    pub fn new() -> (r: EncodeQueue)
        ensures
            r@ == Seq::<Seq<char>>::empty(),
    {
        let r = EncodeQueue { waiting: Vec::new() };
        assert(r@ =~= Seq::<Seq<char>>::empty());
        r
    }

    /// Tests whether the encoder is busy with an image: it need not be asked again.
    pub fn is_waiting(&self, key: &str) -> (r: bool)
        ensures
            r == self@.contains(key@),
    {
        let mut i: usize = 0;
        while i < self.waiting.len()
            invariant
                i <= self.waiting@.len(),
                forall|k: int| 0 <= k < i ==> self@[k] != key@,
            decreases self.waiting@.len() - i,
        {
            assert(self@[i as int] == self.waiting@[i as int]@);
            if str_is(self.waiting[i].as_str(), key) {
                return true;
            }
            i = i + 1;
        }
        false
    }

    /// Notes that the encoder has taken an image.
    pub fn sent(&mut self, key: &str)
        ensures
            final(self)@ == old(self)@.push(key@),
    {
        self.waiting.push(key.to_owned());
        assert(self@ =~= old(self)@.push(key@));
    }

    /// Notes that the encoder is done with an image.
    pub fn received(&mut self, key: &str)
        ensures
            final(self)@ == keys_without(old(self)@, key@),
    {
        let mut left: Vec<String> = Vec::new();
        let ghost all = self@;
        let mut i: usize = 0;
        assert(all.take(0) =~= Seq::<Seq<char>>::empty());
        assert(views(left@) =~= keys_without(all.take(0), key@));
        while i < self.waiting.len()
            invariant
                self == old(self),
                all == self@,
                i <= self.waiting@.len(),
                views(left@) == keys_without(all.take(i as int), key@),
            decreases self.waiting@.len() - i,
        {
            let ghost before = views(left@);
            assert(all.take(i + 1).drop_last() =~= all.take(i as int));
            assert(all.take(i + 1).last() == self.waiting@[i as int]@);
            if !str_is(self.waiting[i].as_str(), key) {
                left.push(self.waiting[i].clone());
                assert(views(left@) =~= before.push(self.waiting@[i as int]@));
            }
            i = i + 1;
        }
        assert(all.take(i as int) =~= all);
        self.waiting = left;
    }
}

/// An image that the encoder is done with can be asked for again, and no other one can.
pub proof fn law_received_images_are_not_waiting(
    keys: Seq<Seq<char>>,
    key: Seq<char>,
    other: Seq<char>,
)
    ensures
        !keys_without(keys, key).contains(key),
        other != key ==> keys_without(keys, key).contains(other) == keys.contains(other),
    decreases keys.len(),
{
    if keys.len() > 0 {
        let front = keys.drop_last();
        let rest = keys_without(front, key);
        law_received_images_are_not_waiting(front, key, other);
        assert(keys =~= front.push(keys.last()));
        if front.contains(other) {
            let i = choose|i: int| 0 <= i < front.len() && front[i] == other;
            assert(keys[i] == other);
        }
        if keys.last() != key {
            let left = rest.push(keys.last());
            if rest.contains(other) {
                let i = choose|i: int| 0 <= i < rest.len() && rest[i] == other;
                assert(left[i] == other);
            }
            assert(left[left.len() - 1] == keys.last());
            assert(keys[keys.len() - 1] == keys.last());
        }
    }
}

} // verus!
