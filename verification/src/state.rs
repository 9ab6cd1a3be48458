//! The records that the ledger stores, and their layout in a slot.

use crate::address::Address;
use crate::wire::{
    can_lay_out, flag_byte, from_le_u64, le_u64, lemma_le_u64_round_trip, lemma_parse_string_zeros,
    lemma_string_round_trip, parse_flag, parse_string, put_string, put_u64, string_bytes,
    take_flag, take_string, take_u64, zeros,
};
use vstd::prelude::*;
use vstd::utf8::encode_utf8;

verus! {

/// The introduction that an actor publishes: one for each owner identity.
#[derive(Clone, Debug, PartialEq, Eq)]
pub struct StudentIntroState {
    pub discriminator: String,
    pub is_initialized: bool,
    pub writer: Address,
    pub name: String,
    pub message: String,
}

/// What a `StudentIntroState` holds.
pub struct StudentIntroView {
    pub discriminator: Seq<char>,
    pub is_initialized: bool,
    pub writer: Seq<u8>,
    pub name: Seq<char>,
    pub message: Seq<char>,
}

impl View for StudentIntroState {
    type V = StudentIntroView;

    open spec fn view(&self) -> StudentIntroView {
        StudentIntroView {
            discriminator: self.discriminator@,
            is_initialized: self.is_initialized,
            writer: self.writer@,
            name: self.name@,
            message: self.message@,
        }
    }
}

/// The tag of an introduction.
pub open spec fn intro_tag() -> Seq<char> {
    "intro"@
}

/// The tag of a reply.
pub open spec fn reply_tag() -> Seq<char> {
    "reply"@
}

/// The tag of a reply counter.
pub open spec fn counter_tag() -> Seq<char> {
    "counter"@
}

/// The tags are plain ASCII, so each takes as many bytes as it has letters.
pub proof fn lemma_tag_lengths()
    ensures
        encode_utf8(intro_tag()).len() == 5,
        encode_utf8(reply_tag()).len() == 5,
        encode_utf8(counter_tag()).len() == 7,
{
    broadcast use vstd::utf8::is_ascii_chars_encode_utf8;

    reveal_strlit("intro");
    reveal_strlit("reply");
    reveal_strlit("counter");
    assert(vstd::utf8::is_ascii_chars(intro_tag()));
    assert(vstd::utf8::is_ascii_chars(reply_tag()));
    assert(vstd::utf8::is_ascii_chars(counter_tag()));
}

/// The layout of an introduction.
pub open spec fn intro_bytes(r: StudentIntroView) -> Seq<u8> {
    string_bytes(r.discriminator) + seq![flag_byte(r.is_initialized)] + r.writer + string_bytes(
        r.name,
    ) + string_bytes(r.message)
}

/// The introduction laid out at the start of `b`, whatever follows it, or
/// `None` where none is laid out there.
pub open spec fn parse_intro(b: Seq<u8>) -> Option<StudentIntroView> {
    match parse_string(b) {
        Some((discriminator, n1)) => match parse_flag(b.skip(n1)) {
            Some(is_initialized) => if b.len() < n1 + 33 {
                None
            } else {
                match parse_string(b.skip(n1 + 33)) {
                    Some((name, n2)) => match parse_string(b.skip(n1 + 33 + n2)) {
                        Some((message, _)) => Some(
                            StudentIntroView {
                                discriminator,
                                is_initialized,
                                writer: b.subrange(n1 + 1, n1 + 33),
                                name,
                                message,
                            },
                        ),
                        None => None,
                    },
                    None => None,
                }
            },
            None => None,
        },
        None => None,
    }
}

impl StudentIntroState {
    /// The tag that marks the slot of an introduction.
    pub const DISCRIMINATOR: &'static str = "intro";

    /// The number of bytes that an introduction with this name and message
    /// takes in its slot.
    pub open spec fn spec_account_size(name: Seq<char>, message: Seq<char>) -> nat {
        (4 + 5) + 1 + 32 + (4 + encode_utf8(name).len()) + (4 + encode_utf8(message).len())
    }

    /// Returns the number of bytes that an introduction with this name and
    /// message takes in its slot.
    pub fn get_account_size(name: String, message: String) -> (size: usize)
        requires
            Self::spec_account_size(name@, message@) <= usize::MAX,
        ensures
            size == Self::spec_account_size(name@, message@),
    {
        proof {
            lemma_tag_lengths();
        }
        return (4 + StudentIntroState::DISCRIMINATOR.len()) + 1 + 32 + (4 + name.as_str().len())
            + (4 + message.as_str().len());
    }

    /// Tells whether the record has been written, or is what a fresh slot
    /// holds.
    pub fn is_initialized(&self) -> (b: bool)
        ensures
            b == self.is_initialized,
    {
        self.is_initialized
    }

    /// Lays the introduction out. Returns `None` where one of its strings is too
    /// long to be laid out.
    pub fn try_to_vec(&self) -> (r: Option<Vec<u8>>)
        ensures
            r.is_some() == self@.can_lay_out(),
            r matches Some(v) ==> v@ == intro_bytes(self@),
    {
        let mut out: Vec<u8> = Vec::new();
        if !put_string(&mut out, &self.discriminator) {
            return None;
        }
        out.push(if self.is_initialized { 1 } else { 0 });
        let mut writer = self.writer.to_vec();
        out.append(&mut writer);
        if !put_string(&mut out, &self.name) {
            return None;
        }
        if !put_string(&mut out, &self.message) {
            return None;
        }
        Some(out)
    }

    /// Reads the introduction laid out at the start of `data`, whatever follows
    /// it. Returns `None` where none is laid out there.
    pub fn try_from_slice_unchecked(data: &[u8]) -> (r: Option<StudentIntroState>)
        ensures
            match r {
                Some(state) => parse_intro(data@) == Some(state@),
                None => parse_intro(data@).is_none(),
            },
    {
        assert(data@.skip(0) =~= data@);
        let (discriminator, p1) = match take_string(data, 0) {
            Some(found) => found,
            None => { return None; },
        };
        let is_initialized = match take_flag(data, p1) {
            Some(flag) => flag,
            None => { return None; },
        };
        if data.len() - p1 < 33 {
            return None;
        }
        let writer = Address::from_slice(data, p1 + 1);
        let (name, p2) = match take_string(data, p1 + 33) {
            Some(found) => found,
            None => { return None; },
        };
        let (message, _) = match take_string(data, p2) {
            Some(found) => found,
            None => { return None; },
        };
        Some(StudentIntroState { discriminator, is_initialized, writer, name, message })
    }
}

impl StudentIntroView {
    /// Whether each string of the introduction is short enough to be laid out.
    pub open spec fn can_lay_out(self) -> bool {
        can_lay_out(self.discriminator) && can_lay_out(self.name) && can_lay_out(self.message)
    }
}

/// An introduction that is laid out and read back is the same introduction,
/// whatever follows it in the slot.
pub proof fn lemma_intro_round_trip(r: StudentIntroView, tail: Seq<u8>)
    requires
        r.can_lay_out(),
        r.writer.len() == 32,
    ensures
        intro_bytes(r).len() == 4 + encode_utf8(r.discriminator).len() + 1 + 32 + 4 + encode_utf8(
            r.name,
        ).len() + 4 + encode_utf8(r.message).len(),
        parse_intro(intro_bytes(r) + tail) == Some(r),
{
    let t1 = string_bytes(r.discriminator);
    let t2 = seq![flag_byte(r.is_initialized)];
    let t3 = string_bytes(r.name);
    let t4 = string_bytes(r.message);
    let r4 = t4 + tail;
    let r3 = t3 + r4;
    let r2 = r.writer + r3;
    let r1 = t2 + r2;
    let b = intro_bytes(r) + tail;
    lemma_string_round_trip(r.discriminator, r1);
    lemma_string_round_trip(r.name, r4);
    lemma_string_round_trip(r.message, tail);
    let n1 = t1.len() as int;
    let n2 = t3.len() as int;
    assert(b == t1 + r1) by {
        assert(b =~= t1 + r1);
    }
    assert(b.skip(n1) == r1) by {
        assert((t1 + r1).skip(n1) =~= r1);
    }
    assert(b.subrange(n1 + 1, n1 + 33) == r.writer) by {
        assert((t1 + r1).subrange(n1 + 1, n1 + 33) =~= r.writer);
    }
    assert(b.skip(n1 + 33) == r3) by {
        assert((t1 + r1).skip(n1 + 33) =~= r3);
    }
    assert(b.skip(n1 + 33 + n2) == r4) by {
        assert((t1 + r1).skip(n1 + 33 + n2) =~= r4);
    }
    assert(parse_flag(r1) == Some(r.is_initialized));
}

/// The size of an introduction is the length of its layout.
pub proof fn lemma_intro_size_is_layout_length(r: StudentIntroView)
    requires
        r.can_lay_out(),
        r.discriminator == intro_tag(),
        r.writer.len() == 32,
    ensures
        intro_bytes(r).len() == StudentIntroState::spec_account_size(r.name, r.message),
{
    lemma_tag_lengths();
}

/// A freshly allocated slot holds an introduction that is not initialized.
pub proof fn lemma_parse_intro_zeros(n: nat)
    requires
        n >= 45,
    ensures
        parse_intro(zeros(n)) matches Some(r) && !r.is_initialized,
{
    let b = zeros(n);
    lemma_parse_string_zeros(b);
    lemma_parse_string_zeros(b.skip(37));
    lemma_parse_string_zeros(b.skip(41));
}

/// A reply to an introduction: one for each parent and sequence number.
#[derive(Clone, Debug, PartialEq, Eq)]
pub struct StudentReplyState {
    pub discriminator: String,
    pub is_initialized: bool,
    pub intro: Address,
    pub replier: Address,
    pub name: String,
    pub message: String,
}

/// What a `StudentReplyState` holds.
pub struct StudentReplyView {
    pub discriminator: Seq<char>,
    pub is_initialized: bool,
    pub intro: Seq<u8>,
    pub replier: Seq<u8>,
    pub name: Seq<char>,
    pub message: Seq<char>,
}

impl View for StudentReplyState {
    type V = StudentReplyView;

    open spec fn view(&self) -> StudentReplyView {
        StudentReplyView {
            discriminator: self.discriminator@,
            is_initialized: self.is_initialized,
            intro: self.intro@,
            replier: self.replier@,
            name: self.name@,
            message: self.message@,
        }
    }
}

impl StudentReplyView {
    /// Whether each string of the reply is short enough to be laid out.
    pub open spec fn can_lay_out(self) -> bool {
        can_lay_out(self.discriminator) && can_lay_out(self.name) && can_lay_out(self.message)
    }
}

/// The layout of a reply.
pub open spec fn reply_bytes(r: StudentReplyView) -> Seq<u8> {
    string_bytes(r.discriminator) + seq![flag_byte(r.is_initialized)] + r.intro + r.replier
        + string_bytes(r.name) + string_bytes(r.message)
}

/// The reply laid out at the start of `b`, whatever follows it, or `None`
/// where none is laid out there.
pub open spec fn parse_reply(b: Seq<u8>) -> Option<StudentReplyView> {
    match parse_string(b) {
        Some((discriminator, n1)) => match parse_flag(b.skip(n1)) {
            Some(is_initialized) => if b.len() < n1 + 65 {
                None
            } else {
                match parse_string(b.skip(n1 + 65)) {
                    Some((name, n2)) => match parse_string(b.skip(n1 + 65 + n2)) {
                        Some((message, _)) => Some(
                            StudentReplyView {
                                discriminator,
                                is_initialized,
                                intro: b.subrange(n1 + 1, n1 + 33),
                                replier: b.subrange(n1 + 33, n1 + 65),
                                name,
                                message,
                            },
                        ),
                        None => None,
                    },
                    None => None,
                }
            },
            None => None,
        },
        None => None,
    }
}

impl StudentReplyState {
    /// The tag that marks the slot of a reply.
    pub const DISCRIMINATOR: &'static str = "reply";

    /// The number of bytes that a reply with this name and message takes in
    /// its slot.
    pub open spec fn spec_account_size(name: Seq<char>, message: Seq<char>) -> nat {
        (4 + 5) + 1 + 32 + 32 + (4 + encode_utf8(name).len()) + (4 + encode_utf8(message).len())
    }

    /// Returns the number of bytes that a reply with this name and message
    /// takes in its slot.
    pub fn get_account_size(name: String, message: String) -> (size: usize)
        requires
            Self::spec_account_size(name@, message@) <= usize::MAX,
        ensures
            size == Self::spec_account_size(name@, message@),
    {
        proof {
            lemma_tag_lengths();
        }
        return (4 + StudentReplyState::DISCRIMINATOR.len()) + 1 + 32 + 32 + (4
            + name.as_str().len()) + (4 + message.as_str().len());
    }

    /// Tells whether the record has been written, or is what a fresh slot
    /// holds.
    pub fn is_initialized(&self) -> (b: bool)
        ensures
            b == self.is_initialized,
    {
        self.is_initialized
    }

    /// Lays the reply out. Returns `None` where one of its strings is too long
    /// to be laid out.
    pub fn try_to_vec(&self) -> (r: Option<Vec<u8>>)
        ensures
            r.is_some() == self@.can_lay_out(),
            r matches Some(v) ==> v@ == reply_bytes(self@),
    {
        let mut out: Vec<u8> = Vec::new();
        if !put_string(&mut out, &self.discriminator) {
            return None;
        }
        out.push(if self.is_initialized { 1 } else { 0 });
        let mut intro = self.intro.to_vec();
        out.append(&mut intro);
        let mut replier = self.replier.to_vec();
        out.append(&mut replier);
        if !put_string(&mut out, &self.name) {
            return None;
        }
        if !put_string(&mut out, &self.message) {
            return None;
        }
        Some(out)
    }

    /// Reads the reply laid out at the start of `data`, whatever follows it.
    /// Returns `None` where none is laid out there.
    pub fn try_from_slice_unchecked(data: &[u8]) -> (r: Option<StudentReplyState>)
        ensures
            match r {
                Some(state) => parse_reply(data@) == Some(state@),
                None => parse_reply(data@).is_none(),
            },
    {
        assert(data@.skip(0) =~= data@);
        let (discriminator, p1) = match take_string(data, 0) {
            Some(found) => found,
            None => { return None; },
        };
        let is_initialized = match take_flag(data, p1) {
            Some(flag) => flag,
            None => { return None; },
        };
        if data.len() - p1 < 65 {
            return None;
        }
        let intro = Address::from_slice(data, p1 + 1);
        let replier = Address::from_slice(data, p1 + 33);
        let (name, p2) = match take_string(data, p1 + 65) {
            Some(found) => found,
            None => { return None; },
        };
        let (message, _) = match take_string(data, p2) {
            Some(found) => found,
            None => { return None; },
        };
        Some(StudentReplyState { discriminator, is_initialized, intro, replier, name, message })
    }
}

/// A reply that is laid out and read back is the same reply, whatever follows
/// it in the slot.
pub proof fn lemma_reply_round_trip(r: StudentReplyView, tail: Seq<u8>)
    requires
        r.can_lay_out(),
        r.intro.len() == 32,
        r.replier.len() == 32,
    ensures
        reply_bytes(r).len() == 4 + encode_utf8(r.discriminator).len() + 1 + 32 + 32 + 4
            + encode_utf8(r.name).len() + 4 + encode_utf8(r.message).len(),
        parse_reply(reply_bytes(r) + tail) == Some(r),
{
    let t1 = string_bytes(r.discriminator);
    let t2 = seq![flag_byte(r.is_initialized)];
    let t3 = string_bytes(r.name);
    let t4 = string_bytes(r.message);
    let r4 = t4 + tail;
    let r3 = t3 + r4;
    let r2 = r.intro + r.replier + r3;
    let r1 = t2 + r2;
    let b = reply_bytes(r) + tail;
    lemma_string_round_trip(r.discriminator, r1);
    lemma_string_round_trip(r.name, r4);
    lemma_string_round_trip(r.message, tail);
    let n1 = t1.len() as int;
    let n2 = t3.len() as int;
    assert(b == t1 + r1) by {
        assert(b =~= t1 + r1);
    }
    assert(b.skip(n1) == r1) by {
        assert((t1 + r1).skip(n1) =~= r1);
    }
    assert(b.subrange(n1 + 1, n1 + 33) == r.intro) by {
        assert((t1 + r1).subrange(n1 + 1, n1 + 33) =~= r.intro);
    }
    assert(b.subrange(n1 + 33, n1 + 65) == r.replier) by {
        assert((t1 + r1).subrange(n1 + 33, n1 + 65) =~= r.replier);
    }
    assert(b.skip(n1 + 65) == r3) by {
        assert((t1 + r1).skip(n1 + 65) =~= r3);
    }
    assert(b.skip(n1 + 65 + n2) == r4) by {
        assert((t1 + r1).skip(n1 + 65 + n2) =~= r4);
    }
    assert(parse_flag(r1) == Some(r.is_initialized));
}

/// The size of a reply is the length of its layout.
pub proof fn lemma_reply_size_is_layout_length(r: StudentReplyView)
    requires
        r.can_lay_out(),
        r.discriminator == reply_tag(),
        r.intro.len() == 32,
        r.replier.len() == 32,
    ensures
        reply_bytes(r).len() == StudentReplyState::spec_account_size(r.name, r.message),
{
    lemma_tag_lengths();
}

/// A freshly allocated slot holds a reply that is not initialized.
pub proof fn lemma_parse_reply_zeros(n: nat)
    requires
        n >= 77,
    ensures
        parse_reply(zeros(n)) matches Some(r) && !r.is_initialized,
{
    let b = zeros(n);
    lemma_parse_string_zeros(b);
    lemma_parse_string_zeros(b.skip(69));
    lemma_parse_string_zeros(b.skip(73));
}

/// The number of replies that an introduction has received: one for each
/// introduction.
#[derive(Clone, Debug, PartialEq, Eq)]
pub struct ReplyCount {
    pub discriminator: String,
    pub is_initialized: bool,
    pub counter: u64,
}

/// What a `ReplyCount` holds.
pub struct ReplyCountView {
    pub discriminator: Seq<char>,
    pub is_initialized: bool,
    pub counter: u64,
}

impl View for ReplyCount {
    type V = ReplyCountView;

    open spec fn view(&self) -> ReplyCountView {
        ReplyCountView {
            discriminator: self.discriminator@,
            is_initialized: self.is_initialized,
            counter: self.counter,
        }
    }
}

/// The layout of a reply counter.
pub open spec fn counter_bytes(r: ReplyCountView) -> Seq<u8> {
    string_bytes(r.discriminator) + seq![flag_byte(r.is_initialized)] + le_u64(r.counter)
}

/// The reply counter laid out at the start of `b`, whatever follows it, or
/// `None` where none is laid out there.
pub open spec fn parse_counter(b: Seq<u8>) -> Option<ReplyCountView> {
    match parse_string(b) {
        Some((discriminator, n1)) => match parse_flag(b.skip(n1)) {
            Some(is_initialized) => if b.len() < n1 + 9 {
                None
            } else {
                Some(
                    ReplyCountView {
                        discriminator,
                        is_initialized,
                        counter: from_le_u64(b.skip(n1 + 1)),
                    },
                )
            },
            None => None,
        },
        None => None,
    }
}

impl ReplyCount {
    /// The tag that marks the slot of a reply counter.
    pub const DISCRIMINATOR: &'static str = "counter";

    /// The number of bytes that a reply counter takes in its slot.
    pub const SIZE: usize = (4 + 7) + 1 + 8;

    /// Tells whether the record has been written, or is what a fresh slot
    /// holds.
    pub fn is_initialized(&self) -> (b: bool)
        ensures
            b == self.is_initialized,
    {
        self.is_initialized
    }

    /// Lays the counter out. Returns `None` where its tag is too long to be
    /// laid out.
    pub fn try_to_vec(&self) -> (r: Option<Vec<u8>>)
        ensures
            r.is_some() == can_lay_out(self@.discriminator),
            r matches Some(v) ==> v@ == counter_bytes(self@),
    {
        let mut out: Vec<u8> = Vec::new();
        if !put_string(&mut out, &self.discriminator) {
            return None;
        }
        out.push(if self.is_initialized { 1 } else { 0 });
        put_u64(&mut out, self.counter);
        Some(out)
    }

    /// Reads the counter laid out at the start of `data`, whatever follows it.
    /// Returns `None` where none is laid out there.
    pub fn try_from_slice_unchecked(data: &[u8]) -> (r: Option<ReplyCount>)
        ensures
            match r {
                Some(state) => parse_counter(data@) == Some(state@),
                None => parse_counter(data@).is_none(),
            },
    {
        assert(data@.skip(0) =~= data@);
        let (discriminator, p1) = match take_string(data, 0) {
            Some(found) => found,
            None => { return None; },
        };
        let is_initialized = match take_flag(data, p1) {
            Some(flag) => flag,
            None => { return None; },
        };
        if data.len() - p1 < 9 {
            return None;
        }
        let counter = take_u64(data, p1 + 1);
        Some(ReplyCount { discriminator, is_initialized, counter })
    }
}

/// A counter that is laid out and read back is the same counter, whatever
/// follows it in the slot.
pub proof fn lemma_counter_round_trip(r: ReplyCountView, tail: Seq<u8>)
    requires
        can_lay_out(r.discriminator),
    ensures
        counter_bytes(r).len() == 4 + encode_utf8(r.discriminator).len() + 1 + 8,
        parse_counter(counter_bytes(r) + tail) == Some(r),
{
    let t1 = string_bytes(r.discriminator);
    let t2 = seq![flag_byte(r.is_initialized)];
    let r2 = le_u64(r.counter) + tail;
    let r1 = t2 + r2;
    let b = counter_bytes(r) + tail;
    lemma_string_round_trip(r.discriminator, r1);
    lemma_le_u64_round_trip(r.counter);
    let n1 = t1.len() as int;
    assert(b == t1 + r1) by {
        assert(b =~= t1 + r1);
    }
    assert(b.skip(n1) == r1) by {
        assert((t1 + r1).skip(n1) =~= r1);
    }
    assert(b.skip(n1 + 1) == r2) by {
        assert((t1 + r1).skip(n1 + 1) =~= r2);
    }
    assert(from_le_u64(r2) == from_le_u64(le_u64(r.counter)));
    assert(parse_flag(r1) == Some(r.is_initialized));
}

/// The size of a reply counter is the length of its layout.
pub proof fn lemma_counter_size_is_layout_length(r: ReplyCountView)
    requires
        r.discriminator == counter_tag(),
    ensures
        counter_bytes(r).len() == ReplyCount::SIZE,
{
    lemma_tag_lengths();
}

/// A freshly allocated slot holds a counter that is not initialized.
pub proof fn lemma_parse_counter_zeros(n: nat)
    requires
        n >= 13,
    ensures
        parse_counter(zeros(n)) matches Some(r) && !r.is_initialized,
{
    let b = zeros(n);
    lemma_parse_string_zeros(b);
}

} // verus!
