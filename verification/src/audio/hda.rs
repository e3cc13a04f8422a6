//! Intel High Definition Audio: verb encoding, CORB/RIRB pointers, and the
//! codec scan as a state machine that asks for one verb at a time.

use vstd::prelude::*;

verus! {

pub const REG_GCAP: u32 = 0x00;
pub const REG_GCTL: u32 = 0x08;
pub const REG_WAKEEN: u32 = 0x0C;
pub const REG_STATESTS: u32 = 0x0E;
pub const REG_INTCTL: u32 = 0x20;
pub const REG_CORBLBASE: u32 = 0x40;
pub const REG_CORBUBASE: u32 = 0x44;
pub const REG_CORBWP: u32 = 0x48;
pub const REG_CORBRP: u32 = 0x4A;
pub const REG_CORBCTL: u32 = 0x4C;
pub const REG_CORBSIZE: u32 = 0x4E;
pub const REG_RIRBLBASE: u32 = 0x50;
pub const REG_RIRBUBASE: u32 = 0x54;
pub const REG_RIRBWP: u32 = 0x58;
pub const REG_RINTCNT: u32 = 0x5A;
pub const REG_RIRBCTL: u32 = 0x5C;
pub const REG_RIRBSIZE: u32 = 0x5E;

pub const GCTL_CRST: u32 = 1;
pub const CORB_RUN: u8 = 2;
pub const RIRB_RUN: u8 = 2;
pub const RIRB_DMAEN: u8 = 2;
/// Ring sizes set up: 256 entries each.
pub const RING_ENTRIES: u16 = 256;

pub const VERB_GET_PARAM: u32 = 0x0F00;
pub const PARAM_VENDOR_ID: u8 = 0x00;
pub const PARAM_NODE_COUNT: u8 = 0x04;
pub const PARAM_FUNC_GROUP_TYPE: u8 = 0x05;
pub const PARAM_AUDIO_WIDGET_CAPS: u8 = 0x09;
pub const FN_GROUP_AUDIO: u8 = 0x01;
/// Codec addresses scanned: 0 to 14.
pub const MAX_CODECS: u8 = 15;

#[derive(Clone, Copy, Debug, PartialEq, Eq, Structural)]
pub struct CodecInfo {
    pub address: u8,
    pub vendor: u16,
    pub device: u16,
    pub output_count: u8,
}

/// One verb: GET_PARAMETER of `param` from `node` of codec `codec`.
#[derive(Clone, Copy, Debug, PartialEq, Eq, Structural)]
pub struct VerbRequest {
    pub codec: u8,
    pub node: u8,
    pub verb: u32,
    pub data: u8,
}

/// The CORB word for a verb: codec address, node id, 20-bit verb, payload.
pub open spec fn spec_command(codec: u8, node: u8, verb: u32, data: u8) -> u32 {
    ((codec as u32) << 28u32) | ((node as u32) << 20u32) | ((verb & 0xFFFFF) << 8u32) | (data as u32)
}

pub fn verb_command(codec: u8, node: u8, verb: u32, data: u8) -> (r: u32)
    ensures
        r == spec_command(codec, node, verb, data),
{
    ((codec as u32) << 28u32) | ((node as u32) << 20u32) | ((verb & 0xFFFFF) << 8u32) | (data as u32)
}

/// The ring slot after `p` in a ring of `size` entries.
pub fn ring_next(p: u16, size: u16) -> (r: u16)
    requires
        size > 0,
    ensures
        r == (p + 1) % (size as int),
        r < size,
{
    ((p as u32 + 1) % (size as u32)) as u16
}

/// The slot of a new response, when the RIRB write pointer (low 8 bits of
/// RIRBWP) has moved past the read pointer `rp`.
pub fn rirb_ready(rirb_wp: u16, rp: u16, size: u16) -> (r: Option<u16>)
    requires
        size > 0,
    ensures
        (rirb_wp & 0xFF) == rp ==> r is None,
        (rirb_wp & 0xFF) != rp ==> r == Some(((rp + 1) % (size as int)) as u16),
{
    if (rirb_wp & 0xFF) != rp {
        Some(ring_next(rp, size))
    } else {
        None
    }
}

#[derive(Clone, Copy, Debug, PartialEq, Eq, Structural)]
pub enum ScanStage {
    Vendor,
    NodeCount,
    FuncGroup,
    SubCount,
    WidgetCaps,
    Done,
}

/// Where the codec scan stands.
pub struct CodecScan {
    pub statests: u16,
    pub addr: u8,
    pub stage: ScanStage,
    pub vendor: u16,
    pub device: u16,
    pub node_start: u8,
    pub node_count: u8,
    pub offset: u8,
    pub sub_start: u8,
    pub sub_count: u8,
    pub sub: u8,
    pub outputs: u8,
    pub codecs: Vec<CodecInfo>,
}

pub open spec fn present(statests: u16, addr: int) -> bool {
    0 <= addr < MAX_CODECS && (statests >> addr as u16) & 1 == 1
}

/// The first present codec address at or after `a`, or 15.
pub open spec fn next_present(statests: u16, a: int) -> int
    decreases MAX_CODECS - a,
{
    if a >= MAX_CODECS {
        MAX_CODECS as int
    } else if present(statests, a) {
        a
    } else {
        next_present(statests, a + 1)
    }
}

proof fn lemma_next_present(statests: u16, a: int)
    requires
        0 <= a <= MAX_CODECS,
    ensures
        a <= next_present(statests, a) <= MAX_CODECS,
        next_present(statests, a) < MAX_CODECS ==> present(statests, next_present(statests, a)),
        forall|b: int| a <= b < next_present(statests, a) ==> !present(statests, b),
    decreases MAX_CODECS - a,
{
    if a < MAX_CODECS && !present(statests, a) {
        lemma_next_present(statests, a + 1);
    }
}

/// A scan's state with the codecs found so far as a sequence.
pub struct ScanView {
    pub statests: u16,
    pub addr: u8,
    pub stage: ScanStage,
    pub vendor: u16,
    pub device: u16,
    pub node_start: u8,
    pub node_count: u8,
    pub offset: u8,
    pub sub_start: u8,
    pub sub_count: u8,
    pub sub: u8,
    pub outputs: u8,
    pub codecs: Seq<CodecInfo>,
}

impl View for CodecScan {
    type V = ScanView;

    open spec fn view(&self) -> ScanView {
        ScanView {
            statests: self.statests,
            addr: self.addr,
            stage: self.stage,
            vendor: self.vendor,
            device: self.device,
            node_start: self.node_start,
            node_count: self.node_count,
            offset: self.offset,
            sub_start: self.sub_start,
            sub_count: self.sub_count,
            sub: self.sub,
            outputs: self.outputs,
            codecs: self.codecs@,
        }
    }
}

/// A scan before it has looked for a codec: nothing learned, nothing found.
pub open spec fn scan_start(statests: u16) -> ScanView {
    ScanView {
        statests,
        addr: 0,
        stage: ScanStage::Vendor,
        vendor: 0,
        device: 0,
        node_start: 0,
        node_count: 0,
        offset: 0,
        sub_start: 0,
        sub_count: 0,
        sub: 0,
        outputs: 0,
        codecs: Seq::empty(),
    }
}

/// The scan moved on to the first present codec at or after `from`.
pub open spec fn sought(v: ScanView, from: int) -> ScanView {
    let a = next_present(v.statests, from);
    ScanView { addr: a as u8, stage: if a < MAX_CODECS { ScanStage::Vendor } else { ScanStage::Done }, ..v }
}

/// The current codec dropped.
pub open spec fn skipped(v: ScanView) -> ScanView {
    sought(v, v.addr + 1)
}

/// The current codec recorded, then the next one sought.
pub open spec fn finished(v: ScanView) -> ScanView {
    sought(ScanView {
        codecs: v.codecs.push(CodecInfo { address: v.addr, vendor: v.vendor, device: v.device, output_count: v.outputs }),
        ..v
    }, v.addr + 1)
}

/// On to the next node of the function-group range, or the codec finished.
pub open spec fn next_node_of(v: ScanView) -> ScanView {
    if v.offset + 1 < v.node_count {
        ScanView { offset: (v.offset + 1) as u8, stage: ScanStage::FuncGroup, ..v }
    } else {
        finished(v)
    }
}

/// One step of the scan on the answer `resp` to its request.
pub open spec fn spec_feed(v: ScanView, resp: Option<u32>) -> ScanView {
    match v.stage {
        ScanStage::Vendor => match resp {
            None => skipped(v),
            Some(w) => ScanView { vendor: (w >> 16u32) as u16, device: (w & 0xFFFF) as u16, stage: ScanStage::NodeCount, ..v },
        },
        ScanStage::NodeCount => match resp {
            None => skipped(v),
            Some(w) => {
                let v2 = ScanView { node_start: (w >> 16u32) as u8, node_count: (w & 0xFF) as u8, outputs: 0, offset: 0, ..v };
                if v2.node_count > 0 { ScanView { stage: ScanStage::FuncGroup, ..v2 } } else { finished(v2) }
            },
        },
        ScanStage::FuncGroup => match resp {
            Some(fg) => if (fg & 0xFF) as u8 == FN_GROUP_AUDIO { ScanView { stage: ScanStage::SubCount, ..v } } else { next_node_of(v) },
            None => next_node_of(v),
        },
        ScanStage::SubCount => match resp {
            None => next_node_of(v),
            Some(w) => {
                let v2 = ScanView { sub_start: (w >> 16u32) as u8, sub_count: (w & 0xFF) as u8, sub: 0, ..v };
                if v2.sub_count > 0 { ScanView { stage: ScanStage::WidgetCaps, ..v2 } } else { next_node_of(v2) }
            },
        },
        ScanStage::WidgetCaps => {
            let v2 = match resp {
                Some(caps) => if (caps >> 20u32) & 0xF == 0 { ScanView { outputs: v.outputs.wrapping_add(1), ..v } } else { v },
                None => v,
            };
            if v2.sub + 1 >= v2.sub_count { next_node_of(v2) } else { ScanView { sub: (v2.sub + 1) as u8, ..v2 } }
        },
        ScanStage::Done => v,
    }
}

impl CodecScan {
    /// Every codec found is present in STATESTS, below the scan position,
    /// in increasing address order; the scan sits on a present codec or is done.
    pub open spec fn wf(&self) -> bool {
        &&& self.addr <= MAX_CODECS
        &&& (self.stage == ScanStage::Done) == (self.addr == MAX_CODECS)
        &&& self.addr < MAX_CODECS ==> present(self.statests, self.addr as int)
        &&& forall|k: int| 0 <= k < self.codecs@.len() ==> {
            &&& present(self.statests, (#[trigger] self.codecs@[k]).address as int)
            &&& self.codecs@[k].address < self.addr
        }
        &&& forall|k: int, l: int| 0 <= k < l < self.codecs@.len() ==> self.codecs@[k].address < self.codecs@[l].address
        &&& self.stage == ScanStage::FuncGroup ==> self.offset < self.node_count
        &&& self.stage == ScanStage::SubCount ==> self.offset < self.node_count
        &&& self.stage == ScanStage::WidgetCaps ==> self.offset < self.node_count && self.sub < self.sub_count
    }

    /// Work left, which every answer strictly reduces.
    pub open spec fn remaining(&self) -> int {
        let left_codecs = (MAX_CODECS - 1 - self.addr) * 196608;
        let here = match self.stage {
            ScanStage::Vendor => 196607,
            ScanStage::NodeCount => 196606,
            ScanStage::FuncGroup => (self.node_count - self.offset) * 768 - 1,
            ScanStage::SubCount => (self.node_count - self.offset) * 768 - 2,
            ScanStage::WidgetCaps => (self.node_count - self.offset - 1) * 768 + (self.sub_count - self.sub),
            ScanStage::Done => 0,
        };
        if self.stage == ScanStage::Done { 0 } else { left_codecs + here }
    }

    /// A scan of the codecs whose STATESTS bits are set.
    pub fn new(statests: u16) -> (r: Self)
        ensures
            r.wf(),
            r.codecs@.len() == 0,
            r.statests == statests,
            r.addr == next_present(statests, 0),
            r.addr < MAX_CODECS ==> r.stage == ScanStage::Vendor,
            r@ == sought(scan_start(statests), 0),
    {
        let mut s = CodecScan {
            statests,
            addr: 0,
            stage: ScanStage::Vendor,
            vendor: 0,
            device: 0,
            node_start: 0,
            node_count: 0,
            offset: 0,
            sub_start: 0,
            sub_count: 0,
            sub: 0,
            outputs: 0,
            codecs: Vec::new(),
        };
        proof {
            assert(s@ =~= scan_start(statests));
        }
        s.seek(0);
        s
    }

    /// Moves to the first present codec at or after `from`.
    fn seek(&mut self, from: u8)
        requires
            from <= MAX_CODECS,
            forall|k: int| 0 <= k < old(self).codecs@.len() ==> {
                &&& present(old(self).statests, (#[trigger] old(self).codecs@[k]).address as int)
                &&& old(self).codecs@[k].address < from
            },
            forall|k: int, l: int| 0 <= k < l < old(self).codecs@.len() ==> old(self).codecs@[k].address < old(self).codecs@[l].address,
        ensures
            final(self).wf(),
            final(self).addr == next_present(old(self).statests, from as int),
            final(self).statests == old(self).statests,
            final(self).codecs@ == old(self).codecs@,
            final(self).addr < MAX_CODECS ==> final(self).stage == ScanStage::Vendor,
            final(self).addr >= from,
            final(self)@ == sought(old(self)@, from as int),
    {
        proof {
            lemma_next_present(self.statests, from as int);
        }
        let mut a = from;
        while a < MAX_CODECS && (self.statests >> a as u16) & 1 != 1
            invariant
                from <= a <= MAX_CODECS,
                next_present(self.statests, a as int) == next_present(old(self).statests, from as int),
                self.statests == old(self).statests,
            decreases MAX_CODECS - a,
        {
            a = a + 1;
        }
        self.addr = a;
        self.stage = if a < MAX_CODECS { ScanStage::Vendor } else { ScanStage::Done };
    }

    /// The verb the scan wants answered next, or `None` when it is done.
    pub fn request(&self) -> (r: Option<VerbRequest>)
        requires
            self.wf(),
        ensures
            self.stage == ScanStage::Done <==> r is None,
            self.stage == ScanStage::Vendor ==> r == Some(VerbRequest { codec: self.addr, node: 0, verb: VERB_GET_PARAM, data: PARAM_VENDOR_ID }),
            self.stage == ScanStage::NodeCount ==> r == Some(VerbRequest { codec: self.addr, node: 0, verb: VERB_GET_PARAM, data: PARAM_NODE_COUNT }),
            self.stage == ScanStage::FuncGroup ==> r == Some(VerbRequest { codec: self.addr,
                node: self.node_start.wrapping_add(self.offset), verb: VERB_GET_PARAM, data: PARAM_FUNC_GROUP_TYPE }),
            self.stage == ScanStage::SubCount ==> r == Some(VerbRequest { codec: self.addr,
                node: self.node_start.wrapping_add(self.offset), verb: VERB_GET_PARAM, data: PARAM_NODE_COUNT }),
            self.stage == ScanStage::WidgetCaps ==> r == Some(VerbRequest { codec: self.addr,
                node: self.sub_start.wrapping_add(self.sub), verb: VERB_GET_PARAM, data: PARAM_AUDIO_WIDGET_CAPS }),
    {
        match self.stage {
            ScanStage::Vendor => Some(VerbRequest { codec: self.addr, node: 0, verb: VERB_GET_PARAM, data: PARAM_VENDOR_ID }),
            ScanStage::NodeCount => Some(VerbRequest { codec: self.addr, node: 0, verb: VERB_GET_PARAM, data: PARAM_NODE_COUNT }),
            ScanStage::FuncGroup => Some(VerbRequest { codec: self.addr, node: self.node_start.wrapping_add(self.offset),
                verb: VERB_GET_PARAM, data: PARAM_FUNC_GROUP_TYPE }),
            ScanStage::SubCount => Some(VerbRequest { codec: self.addr, node: self.node_start.wrapping_add(self.offset),
                verb: VERB_GET_PARAM, data: PARAM_NODE_COUNT }),
            ScanStage::WidgetCaps => Some(VerbRequest { codec: self.addr, node: self.sub_start.wrapping_add(self.sub),
                verb: VERB_GET_PARAM, data: PARAM_AUDIO_WIDGET_CAPS }),
            ScanStage::Done => None,
        }
    }

    /// Closes the current codec: records it and moves to the next one.
    fn finish_codec(&mut self)
        requires
            old(self).wf(),
            old(self).addr < MAX_CODECS,
        ensures
            final(self).wf(),
            final(self).statests == old(self).statests,
            final(self).codecs@ == old(self).codecs@.push(CodecInfo { address: old(self).addr, vendor: old(self).vendor,
                device: old(self).device, output_count: old(self).outputs }),
            final(self).addr == next_present(old(self).statests, old(self).addr + 1),
            final(self).addr > old(self).addr,
            final(self).addr < MAX_CODECS ==> final(self).stage == ScanStage::Vendor,
            final(self)@ == finished(old(self)@),
    {
        self.codecs.push(CodecInfo { address: self.addr, vendor: self.vendor, device: self.device, output_count: self.outputs });
        let next = self.addr + 1;
        self.seek(next);
    }

    /// Drops the current codec (a verb about it went unanswered) and moves on.
    fn skip_codec(&mut self)
        requires
            old(self).wf(),
            old(self).addr < MAX_CODECS,
        ensures
            final(self).wf(),
            final(self).statests == old(self).statests,
            final(self).codecs@ == old(self).codecs@,
            final(self).addr == next_present(old(self).statests, old(self).addr + 1),
            final(self).addr > old(self).addr,
            final(self).addr < MAX_CODECS ==> final(self).stage == ScanStage::Vendor,
            final(self)@ == skipped(old(self)@),
    {
        let next = self.addr + 1;
        self.seek(next);
    }

    /// Moves to the next node of the function-group range, or closes the codec.
    fn next_node(&mut self)
        requires
            old(self).wf(),
            old(self).addr < MAX_CODECS,
            old(self).offset < old(self).node_count,
        ensures
            final(self).wf(),
            final(self).statests == old(self).statests,
            old(self).offset + 1 < old(self).node_count ==> final(self).stage == ScanStage::FuncGroup
                && final(self).offset == old(self).offset + 1 && final(self).codecs@ == old(self).codecs@
                && final(self).addr == old(self).addr && final(self).node_count == old(self).node_count,
            old(self).offset + 1 >= old(self).node_count ==> final(self).codecs@ == old(self).codecs@.push(CodecInfo {
                address: old(self).addr, vendor: old(self).vendor, device: old(self).device, output_count: old(self).outputs })
                && final(self).addr == next_present(old(self).statests, old(self).addr + 1)
                && final(self).addr > old(self).addr
                && (final(self).addr < MAX_CODECS ==> final(self).stage == ScanStage::Vendor),
            final(self)@ == next_node_of(old(self)@),
    {
        if self.offset + 1 < self.node_count {
            self.offset = self.offset + 1;
            self.stage = ScanStage::FuncGroup;
        } else {
            self.finish_codec();
        }
    }

    /// Takes the answer to the last request (`None`: no answer came) and
    /// moves the scan on. An unanswered vendor or node-count query drops the
    /// codec; an unanswered node query skips that node; output widgets
    /// (type 0) are counted.
    pub fn feed(&mut self, resp: Option<u32>)
        requires
            old(self).wf(),
            old(self).stage != ScanStage::Done,
        ensures
            final(self).wf(),
            final(self).statests == old(self).statests,
            final(self).remaining() < old(self).remaining(),
            final(self).codecs@.len() <= old(self).codecs@.len() + 1,
            final(self).codecs@.subrange(0, old(self).codecs@.len() as int) == old(self).codecs@,
            final(self)@ == spec_feed(old(self)@, resp),
    {
        let ghost before = self.codecs@;
        match self.stage {
            ScanStage::Vendor => match resp {
                None => self.skip_codec(),
                Some(w) => {
                    self.vendor = (w >> 16u32) as u16;
                    self.device = (w & 0xFFFF) as u16;
                    self.stage = ScanStage::NodeCount;
                },
            },
            ScanStage::NodeCount => match resp {
                None => self.skip_codec(),
                Some(w) => {
                    self.node_start = (w >> 16u32) as u8;
                    self.node_count = (w & 0xFF) as u8;
                    self.outputs = 0;
                    self.offset = 0;
                    if self.node_count > 0 {
                        self.stage = ScanStage::FuncGroup;
                    } else {
                        self.finish_codec();
                    }
                },
            },
            ScanStage::FuncGroup => match resp {
                Some(fg) if (fg & 0xFF) as u8 == FN_GROUP_AUDIO => {
                    self.stage = ScanStage::SubCount;
                },
                _ => self.next_node(),
            },
            ScanStage::SubCount => match resp {
                None => self.next_node(),
                Some(w) => {
                    self.sub_start = (w >> 16u32) as u8;
                    self.sub_count = (w & 0xFF) as u8;
                    self.sub = 0;
                    if self.sub_count > 0 {
                        self.stage = ScanStage::WidgetCaps;
                    } else {
                        self.next_node();
                    }
                },
            },
            ScanStage::WidgetCaps => {
                if let Some(caps) = resp {
                    if (caps >> 20u32) & 0xF == 0 {
                        self.outputs = self.outputs.wrapping_add(1);
                    }
                }
                if self.sub + 1 >= self.sub_count {
                    self.next_node();
                } else {
                    self.sub = self.sub + 1;
                }
            },
            ScanStage::Done => {},
        }
        proof {
            assert(self.codecs@.subrange(0, before.len() as int) =~= before);
        }
    }
}

} // verus!
