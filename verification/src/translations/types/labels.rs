use vstd::prelude::*;

verus! {

/// The words of one language that the report renders, as the translation
/// tables give them.
#[derive(Debug)]
pub struct Labels {
    /// Word for a network address.
    pub address: String,
    /// Word for a port.
    pub port: String,
    /// Word for a protocol.
    pub protocol: String,
    /// Word for a service.
    pub service: String,
    /// Word for the end that traffic comes from.
    pub source: String,
    /// Word for the end that traffic goes to.
    pub destination: String,
    /// Word for bytes.
    pub bytes: String,
    /// Word for packets.
    pub packets: String,
}

/// The words as the contracts speak of them.
pub struct LabelsView {
    pub address: Seq<char>,
    pub port: Seq<char>,
    pub protocol: Seq<char>,
    pub service: Seq<char>,
    pub source: Seq<char>,
    pub destination: Seq<char>,
    pub bytes: Seq<char>,
    pub packets: Seq<char>,
}

impl View for Labels {
    type V = LabelsView;

    open spec fn view(&self) -> LabelsView {
        LabelsView {
            address: self.address@,
            port: self.port@,
            protocol: self.protocol@,
            service: self.service@,
            source: self.source@,
            destination: self.destination@,
            bytes: self.bytes@,
            packets: self.packets@,
        }
    }
}

} // verus!
