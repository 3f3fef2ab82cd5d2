//! The requests that enumerate a USB device and the decoding of their
//! answers. The controller carries a request out; what is asked for next,
//! and what an answer means, is decided here.
use vstd::prelude::*;

verus! {

use crate::error::Error;
use crate::usb::{
    chain_from,
    chain_stop,
    config_descriptor_of,
    decode_descriptor_chain,
    ConfigDescriptor,
    UsbDescriptor,
    UsbDescriptorType,
};

/// Size of a device descriptor.
pub const DEVICE_DESCRIPTOR_SIZE: usize = 18;

/// Size of a configuration descriptor without the rest of its chain.
pub const CONFIG_DESCRIPTOR_SIZE: usize = 9;

/// Size of the buffer that receives a string descriptor.
pub const STRING_DESCRIPTOR_BUFFER_SIZE: usize = 128;

/// Size of the buffer that receives string descriptor zero.
pub const STRING_DESCRIPTOR_ZERO_SIZE: usize = 8;

/// A Get_Descriptor request: which descriptor, and how many bytes the
/// destination buffer holds.
#[derive(Clone, Copy, Debug, PartialEq, Eq, Structural)]
pub struct DescriptorRequest {
    pub desc_type: UsbDescriptorType,
    pub index: u8,
    /// The language id, or for an interface's descriptor the interface number.
    pub w_index: u16,
    /// Whether the request is addressed to an interface rather than the device.
    pub to_interface: bool,
    pub length: usize,
}

/// The request for the device descriptor.
pub fn device_descriptor_request() -> (r: DescriptorRequest)
    ensures
        r == (DescriptorRequest {
            desc_type: UsbDescriptorType::Device,
            index: 0,
            w_index: 0,
            to_interface: false,
            length: DEVICE_DESCRIPTOR_SIZE,
        }),
{
    DescriptorRequest {
        desc_type: UsbDescriptorType::Device,
        index: 0,
        w_index: 0,
        to_interface: false,
        length: DEVICE_DESCRIPTOR_SIZE,
    }
}

/// The request for string descriptor `index` in language `lang_id`.
pub fn string_descriptor_request(lang_id: u16, index: u8) -> (r: DescriptorRequest)
    ensures
        r == (DescriptorRequest {
            desc_type: UsbDescriptorType::String,
            index,
            w_index: lang_id,
            to_interface: false,
            length: STRING_DESCRIPTOR_BUFFER_SIZE,
        }),
{
    DescriptorRequest {
        desc_type: UsbDescriptorType::String,
        index,
        w_index: lang_id,
        to_interface: false,
        length: STRING_DESCRIPTOR_BUFFER_SIZE,
    }
}

/// The request for string descriptor zero, the table of language ids.
pub fn string_descriptor_zero_request() -> (r: DescriptorRequest)
    ensures
        r == (DescriptorRequest {
            desc_type: UsbDescriptorType::String,
            index: 0,
            w_index: 0,
            to_interface: false,
            length: STRING_DESCRIPTOR_ZERO_SIZE,
        }),
{
    DescriptorRequest {
        desc_type: UsbDescriptorType::String,
        index: 0,
        w_index: 0,
        to_interface: false,
        length: STRING_DESCRIPTOR_ZERO_SIZE,
    }
}

/// The request for the HID report descriptor of interface
/// `interface_number`, whose size a HID descriptor gave.
pub fn hid_report_descriptor_request(interface_number: u8, desc_size: usize) -> (r: DescriptorRequest)
    ensures
        r == (DescriptorRequest {
            desc_type: UsbDescriptorType::Report,
            index: 0,
            w_index: interface_number as u16,
            to_interface: true,
            length: desc_size,
        }),
{
    DescriptorRequest {
        desc_type: UsbDescriptorType::Report,
        index: 0,
        w_index: interface_number as u16,
        to_interface: true,
        length: desc_size,
    }
}

/// The text that `String::from_utf8_lossy` makes of `b`.
pub uninterp spec fn utf8_lossy(b: Seq<u8>) -> Seq<char>;

/// Relies on `String::from_utf8_lossy`: the text depends on the bytes alone,
/// and no bytes give no text.
#[verifier::external_body]
fn lossy_chars(b: &[u8]) -> (r: Vec<char>)
    ensures
        r@ == utf8_lossy(b@),
        b@.len() == 0 ==> r@.len() == 0,
{
    String::from_utf8_lossy(b).chars().collect()
}

/// Relies on `String`'s `FromIterator<char>`: the string holds the
/// characters in order.
#[verifier::external_body]
fn string_from_chars(v: &[char]) -> (r: String)
    ensures
        r@ == v@,
{
    v.iter().collect()
}

/// `s` with every NUL character taken out.
pub open spec fn without_nul(s: Seq<char>) -> Seq<char>
    decreases s.len(),
{
    if s.len() == 0 {
        s
    } else if s.last() == '\0' {
        without_nul(s.drop_last())
    } else {
        without_nul(s.drop_last()).push(s.last())
    }
}

/// Takes every NUL character out of `chars`.
pub fn remove_nul_chars(chars: &[char]) -> (r: Vec<char>)
    ensures
        r@ == without_nul(chars@),
{
    let mut out: Vec<char> = Vec::new();
    let mut i: usize = 0;
    while i < chars.len()
        invariant
            i <= chars@.len(),
            out@ == without_nul(chars@.subrange(0, i as int)),
        decreases chars@.len() - i,
    {
        let c = chars[i];
        proof {
            assert(chars@.subrange(0, i + 1).drop_last() =~= chars@.subrange(0, i as int));
        }
        if c != '\0' {
            out.push(c);
        }
        i = i + 1;
    }
    assert(chars@.subrange(0, i as int) =~= chars@);
    out
}

/// The text of a received string descriptor: the bytes after its two-byte
/// header, read as UTF-8 with invalid sequences replaced, without NULs.
pub fn decode_string_descriptor(buf: &[u8]) -> (r: String)
    ensures
        buf@.len() >= 2 ==> r@ == without_nul(utf8_lossy(buf@.subrange(2, buf@.len() as int))),
        buf@.len() < 2 ==> r@.len() == 0,
{
    if buf.len() < 2 {
        return string_from_chars(&[]);
    }
    let text = vstd::slice::slice_subrange(buf, 2, buf.len());
    let chars = lossy_chars(text);
    let kept = remove_nul_chars(chars.as_slice());
    string_from_chars(kept.as_slice())
}

/// Where a two-phase configuration fetch stands.
#[derive(Clone, Copy, Debug, PartialEq, Eq, Structural)]
pub enum ConfigFetchPhase {
    /// The configuration header has been asked for.
    AwaitingHeader,
    /// The whole chain, of the length the header declared, has been asked for.
    AwaitingChain { total_length: usize },
    Finished,
}

/// What to do after a step of a configuration fetch.
#[derive(Debug)]
pub enum ConfigFetchStep {
    /// Carry out this request and hand its answer to the next step.
    Request(DescriptorRequest),
    /// The fetch is over, with the decoded chain or the reason it failed.
    Finished(Result<Vec<UsbDescriptor>, Error>),
}

pub open spec fn config_request(length: usize) -> DescriptorRequest {
    DescriptorRequest {
        desc_type: UsbDescriptorType::Config,
        index: 0,
        w_index: 0,
        to_interface: false,
        length,
    }
}

/// The configuration descriptor and the chain behind it, fetched in two
/// phases: first the fixed header, to learn the chain's total length, then
/// the whole chain in a buffer of exactly that length.
pub struct ConfigFetch {
    pub phase: ConfigFetchPhase,
}

impl ConfigFetch {
    /// A chain being waited for is no longer than a header can declare.
    pub open spec fn wf(&self) -> bool {
        self.phase is AwaitingChain ==> self.phase->total_length <= u16::MAX
    }

    /// Starts a fetch; the request returned asks for the header alone.
    pub fn new() -> (r: (ConfigFetch, DescriptorRequest))
        ensures
            r.0.wf(),
            r.0.phase == ConfigFetchPhase::AwaitingHeader,
            r.1 == config_request(CONFIG_DESCRIPTOR_SIZE),
    {
        (
            ConfigFetch { phase: ConfigFetchPhase::AwaitingHeader },
            DescriptorRequest {
                desc_type: UsbDescriptorType::Config,
                index: 0,
                w_index: 0,
                to_interface: false,
                length: CONFIG_DESCRIPTOR_SIZE,
            },
        )
    }

    /// Takes the answer to the last request: the bytes received, or the
    /// error with which the request failed.
    pub fn step(&mut self, answer: Result<&[u8], Error>) -> (r: ConfigFetchStep)
        requires
            old(self).wf(),
            old(self).phase != ConfigFetchPhase::Finished,
        ensures
            final(self).wf(),
            answer is Err ==> final(self).phase == ConfigFetchPhase::Finished && r
                == ConfigFetchStep::Finished(Err(answer->Err_0)),
            answer is Ok && old(self).phase == ConfigFetchPhase::AwaitingHeader ==> ({
                let b = answer->Ok_0@;
                if b.len() < CONFIG_DESCRIPTOR_SIZE {
                    final(self).phase == ConfigFetchPhase::Finished && r == ConfigFetchStep::Finished(
                        Err(Error::TooShort),
                    )
                } else {
                    let n = config_descriptor_of(b).total_length as usize;
                    final(self).phase == (ConfigFetchPhase::AwaitingChain { total_length: n }) && r
                        == ConfigFetchStep::Request(config_request(n))
                }
            }),
            answer is Ok && old(self).phase is AwaitingChain ==> ({
                let b = answer->Ok_0@;
                let n = old(self).phase->total_length;
                let chain = chain_from(b.subrange(0, n as int), 0);
                &&& final(self).phase == ConfigFetchPhase::Finished
                &&& r is Finished
                &&& b.len() < n ==> r == ConfigFetchStep::Finished(Err(Error::TooShort))
                &&& b.len() >= n ==> (r->Finished_0 is Ok <==> chain.1)
                &&& b.len() >= n && r->Finished_0 is Ok ==> r->Finished_0->Ok_0@ == chain.0
                &&& b.len() >= n && r->Finished_0 is Err ==> {
                    let cb = b.subrange(0, n as int);
                    &&& (r->Finished_0 == Err::<Vec<UsbDescriptor>, Error>(Error::ZeroLength)
                        <==> cb[chain_stop(cb, 0)] == 0)
                    &&& (r->Finished_0 == Err::<Vec<UsbDescriptor>, Error>(Error::ZeroLength)
                        || r->Finished_0 == Err::<Vec<UsbDescriptor>, Error>(Error::TooShort))
                }
            }),
    {
        let bytes = match answer {
            Err(e) => {
                self.phase = ConfigFetchPhase::Finished;
                return ConfigFetchStep::Finished(Err(e));
            },
            Ok(b) => b,
        };
        match self.phase {
            ConfigFetchPhase::AwaitingHeader => match ConfigDescriptor::from_bytes(bytes) {
                Err(e) => {
                    self.phase = ConfigFetchPhase::Finished;
                    ConfigFetchStep::Finished(Err(e))
                },
                Ok(header) => {
                    let n = header.total_length();
                    self.phase = ConfigFetchPhase::AwaitingChain { total_length: n };
                    ConfigFetchStep::Request(
                        DescriptorRequest {
                            desc_type: UsbDescriptorType::Config,
                            index: 0,
                            w_index: 0,
                            to_interface: false,
                            length: n,
                        },
                    )
                },
            },
            ConfigFetchPhase::AwaitingChain { total_length } => {
                self.phase = ConfigFetchPhase::Finished;
                if bytes.len() < total_length {
                    return ConfigFetchStep::Finished(Err(Error::TooShort));
                }
                let chain = vstd::slice::slice_subrange(bytes, 0, total_length);
                ConfigFetchStep::Finished(decode_descriptor_chain(chain))
            },
            ConfigFetchPhase::Finished => ConfigFetchStep::Finished(Err(Error::Transport)),
        }
    }
}

} // verus!
