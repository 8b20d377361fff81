//! The streams of screens and sound that clients subscribe to.

use vstd::prelude::*;

use crate::bits::{high_byte, low_byte, word_of};

verus! {

/// The last frame that the screen stream was given, and how often it has
/// changed since the start.
#[derive(Debug)]
pub struct FrameStream {
    pub width: u32,
    pub height: u32,
    pub rgb: Vec<u8>,
    pub seq: u64,
}

fn same_bytes(a: &Vec<u8>, b: &Vec<u8>) -> (yes: bool)
    ensures
        yes == (a@ == b@),
{
    if a.len() != b.len() {
        return false;
    }
    let mut i: usize = 0;
    while i < a.len()
        invariant
            i <= a@.len() == b@.len(),
            a@.take(i as int) == b@.take(i as int),
        decreases a.len() - i,
    {
        if a[i] != b[i] {
            return false;
        }
        i = i + 1;
        assert(a@.take(i as int) =~= a@.take(i - 1).push(a@[i - 1]));
        assert(b@.take(i as int) =~= b@.take(i - 1).push(b@[i - 1]));
    }
    assert(a@.take(i as int) =~= a@);
    assert(b@.take(i as int) =~= b@);
    true
}

impl FrameStream {
    /// Whether a frame is the last one given.
    pub open spec fn shows(&self, width: u32, height: u32, rgb: Seq<u8>) -> bool {
        self.width == width && self.height == height && self.rgb@ == rgb
    }

    /// A stream that was given nothing but a black screen.
    pub fn new(width: u32, height: u32, rgb: Vec<u8>) -> (stream: Self)
        ensures
            stream.shows(width, height, rgb@),
            stream.seq == 0,
    {
        FrameStream { width, height, rgb, seq: 0 }
    }

    /// Hand a frame to the stream: it is kept, and counted, if somebody
    /// subscribes and it differs from the last one.
    pub fn offer(&mut self, width: u32, height: u32, rgb: Vec<u8>, subscribers: usize)
        ensures
            if subscribers == 0 || old(self).shows(width, height, rgb@) {
                *final(self) == *old(self)
            } else {
                &&& final(self).shows(width, height, rgb@)
                &&& final(self).seq == (old(self).seq + 1) % 0x1_0000_0000_0000_0000
            },
    {
        if subscribers == 0 {
            return;
        }
        if self.width == width && self.height == height && same_bytes(&self.rgb, &rgb) {
            return;
        }
        self.width = width;
        self.height = height;
        self.rgb = rgb;
        self.seq = self.seq.wrapping_add(1);
    }

    /// Whether a client has a frame to get that it wasn't sent: number 0 is
    /// the screen before the first subscriber.
    pub fn is_due(&self, last: u64) -> (yes: bool)
        ensures
            yes == (self.seq != last && self.seq != 0),
    {
        self.seq != last && self.seq != 0
    }
}

/// The bytes of sound samples, the low one of each first.
pub open spec fn sent_samples(samples: Seq<i16>) -> Seq<u8> {
    Seq::new(
        samples.len() * 2,
        |i: int|
            if i % 2 == 0 {
                low_byte(samples[i / 2] as u16)
            } else {
                high_byte(samples[i / 2] as u16)
            },
    )
}

pub fn sample_bytes(samples: &Vec<i16>) -> (bytes: Vec<u8>)
    ensures
        bytes@ == sent_samples(samples@),
{
    let mut bytes: Vec<u8> = Vec::new();
    let mut i: usize = 0;
    while i < samples.len()
        invariant
            i <= samples@.len(),
            bytes@.len() == i * 2,
            forall|k: int|
                0 <= k < bytes@.len() ==> #[trigger] bytes@[k] == sent_samples(samples@)[k],
        decreases samples.len() - i,
    {
        let word: u16 = samples[i] as u16;
        bytes.push((word & 0xFF) as u8);
        bytes.push((word >> 8) as u8);
        i = i + 1;
    }
    assert(bytes@ =~= sent_samples(samples@));
    bytes
}

/// Each sample can be read from its two bytes.
pub proof fn law_samples_read_back(samples: Seq<i16>, i: int)
    requires
        0 <= i < samples.len(),
    ensures
        word_of(sent_samples(samples)[2 * i], sent_samples(samples)[2 * i + 1]) as i16
            == samples[i],
{
    let word = samples[i] as u16;
    crate::bits::lemma_word_of_bytes(word);
    assert((2 * i) / 2 == i && (2 * i + 1) / 2 == i);
    let sample = samples[i];
    assert((sample as u16) as i16 == sample) by (bit_vector);
}

} // verus!
