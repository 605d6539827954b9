//! Names for message channels: a topic, and a random suffix that tells one
//! instance of a channel from another.
use vstd::prelude::*;
use crate::trusted::{hex_digit, is_hex_digit, random_alphanumeric};

verus! {

/// How many hexadecimal digits tell channel instances apart.
pub const INSTANCE_SUFFIX_LEN: usize = 8;

/// What is published when a channel opens.
#[derive(Debug, Clone, PartialEq, Eq)]
pub struct ChannelAnnouncementMessage {
    pub channel_topic: String,
    pub channel_instance_subject: String,
    pub initial_message: String,
}

/// Each sample as one hexadecimal digit: the digit of its remainder by sixteen.
pub open spec fn hex_of_samples(samples: Seq<u8>) -> Seq<char> {
    Seq::new(samples.len(), |i: int| hex_digit(samples[i] as int % 16))
}

/// The subject of one instance of a channel: the topic, a dot, the suffix.
pub open spec fn instance_subject(topic: Seq<char>, suffix: Seq<char>) -> Seq<char> {
    topic + "."@ + suffix
}

/// What tells one instance of a channel from another: as many hexadecimal
/// digits as `INSTANCE_SUFFIX_LEN` says.
pub open spec fn is_hex_suffix(suffix: Seq<char>) -> bool {
    &&& suffix.len() == INSTANCE_SUFFIX_LEN
    &&& forall|i: int| 0 <= i < suffix.len() ==> is_hex_digit(#[trigger] suffix[i])
}

fn hex_char(d: u8) -> (c: char)
    requires
        d < 16,
    ensures
        c == hex_digit(d as int),
{
    if d == 0 {
        '0'
    } else if d == 1 {
        '1'
    } else if d == 2 {
        '2'
    } else if d == 3 {
        '3'
    } else if d == 4 {
        '4'
    } else if d == 5 {
        '5'
    } else if d == 6 {
        '6'
    } else if d == 7 {
        '7'
    } else if d == 8 {
        '8'
    } else if d == 9 {
        '9'
    } else if d == 10 {
        'a'
    } else if d == 11 {
        'b'
    } else if d == 12 {
        'c'
    } else if d == 13 {
        'd'
    } else if d == 14 {
        'e'
    } else {
        'f'
    }
}

/// Turns samples into hexadecimal digits, one for one.
pub fn hex_from_samples(samples: &Vec<u8>) -> (text: String)
    ensures
        text@ == hex_of_samples(samples@),
{
    let mut out: Vec<char> = Vec::new();
    let mut i: usize = 0;
    while i < samples.len()
        invariant
            i <= samples.len(),
            out@ == hex_of_samples(samples@.take(i as int)),
        decreases samples.len() - i,
    {
        out.push(hex_char(samples[i] % 16));
        proof {
            assert(out@ =~= hex_of_samples(samples@.take(i + 1)));
        }
        i += 1;
    }
    proof {
        assert(samples@.take(samples.len() as int) =~= samples@);
    }
    crate::text::string_of(&out)
}

/// A random string of `len` hexadecimal digits.
pub fn random_hex(len: usize) -> (text: String)
    ensures
        text@.len() == len,
        forall|i: int| 0 <= i < len ==> is_hex_digit(#[trigger] text@[i]),
{
    let samples = random_alphanumeric(len);
    let text = hex_from_samples(&samples);
    proof {
        assert forall|i: int| 0 <= i < len implies is_hex_digit(#[trigger] text@[i]) by {
            assert(text@[i] == hex_digit(samples@[i] as int % 16));
        }
    }
    text
}

/// Names one instance of a channel on `topic`.
pub fn channel_instance_subject(topic: &str, suffix: &str) -> (subject: String)
    ensures
        subject@ == instance_subject(topic@, suffix@),
{
    let mut subject = String::from_str(topic);
    subject.append(".");
    subject.append(suffix);
    subject
}

impl ChannelAnnouncementMessage {
    /// The announcement of a new instance of the channel on `channel_topic`.
    /// Its subject is the topic, a dot, and random hexadecimal digits.
    pub fn establish(channel_topic: &str, initial_message: &str) -> (message:
        ChannelAnnouncementMessage)
        ensures
            message.channel_topic@ == channel_topic@,
            message.initial_message@ == initial_message@,
            exists|suffix: Seq<char>|
                #![auto]
                is_hex_suffix(suffix) && message.channel_instance_subject@ == instance_subject(
                    channel_topic@,
                    suffix,
                ),
    {
        let suffix = random_hex(INSTANCE_SUFFIX_LEN);
        proof {
            assert(is_hex_suffix(suffix@));
        }
        ChannelAnnouncementMessage {
            channel_topic: String::from_str(channel_topic),
            channel_instance_subject: channel_instance_subject(channel_topic, suffix.as_str()),
            initial_message: String::from_str(initial_message),
        }
    }
}

} // verus!
