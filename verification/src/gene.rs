//! Genes: 32-bit records that each wire one synapse.
//!
//! From the most significant bit down a gene holds 1 bit of source type,
//! 7 bits of source id, 1 bit of sink type, 7 bits of sink id and 16 bits of
//! weight.

use vstd::prelude::*;
use vstd::string::*;
use rand::rngs::StdRng;
use crate::error::ConfigError;
use crate::motors::NUM_MOTORS;
use crate::random::draw_below;
use crate::sensors::NUM_SENSORS;
use crate::text::{append_radix, radix_text, radix_text_round_trip, radix_value};

verus! {

/// Source type of a gene that starts at a sensor.
pub const SOURCE_SENSOR: u8 = 0;

/// Source type of a gene that starts at an internal neuron.
pub const SOURCE_INTERNAL: u8 = 1;

/// Sink type of a gene that ends at an internal neuron.
pub const SINK_INTERNAL: u8 = 0;

/// Sink type of a gene that ends at a motor.
pub const SINK_MOTOR: u8 = 1;

/// The largest number of internal neurons that a 7-bit id can address.
pub const MAX_INTERNAL: u8 = 128;

/// One synapse: where it starts, where it ends and how strong it is.
#[derive(Clone, Copy, Debug, PartialEq, Eq, Structural)]
pub struct Gene {
    pub source: u8,
    pub source_id: u8,
    pub sink: u8,
    pub sink_id: u8,
    pub weight: u16,
}

/// What the brain compiler does with a gene.
#[derive(Clone, Copy, Debug, PartialEq, Eq, Structural)]
pub enum Wiring {
    /// The gene sets a weight from a sensor to an internal neuron.
    SensorToInternal,
    /// The gene sets a weight from an internal neuron to a motor.
    InternalToMotor,
    /// The gene joins two layers that have no synapses between them.
    Unmapped,
}

impl Gene {
    /// Whether every field fits the width it has in the packed record.
    pub open spec fn fits(self) -> bool {
        self.source <= 1 && self.source_id <= 127 && self.sink <= 1 && self.sink_id <= 127
    }

    /// The packed record as a number.
    pub open spec fn encoding(self) -> int {
        self.source * 0x8000_0000 + self.source_id * 0x100_0000 + self.sink * 0x80_0000
            + self.sink_id * 0x1_0000 + self.weight
    }

    /// The gene that a packed record holds.
    pub open spec fn decoding(bits: u32) -> Gene {
        Gene {
            source: (bits / 0x8000_0000) as u8,
            source_id: ((bits / 0x100_0000) % 128) as u8,
            sink: ((bits / 0x80_0000) % 2) as u8,
            sink_id: ((bits / 0x1_0000) % 128) as u8,
            weight: (bits % 0x1_0000) as u16,
        }
    }

    /// The packed record in hexadecimal, with upper-case letters and
    /// without leading zeros.
    pub open spec fn hex(self) -> Seq<char> {
        radix_text(self.encoding() as nat, 16)
    }

    /// The five fields in binary, joined by hyphens, in round brackets.
    pub open spec fn text(self) -> Seq<char> {
        seq!['('] + radix_text(self.source as nat, 2) + seq!['-'] + radix_text(
            self.source_id as nat,
            2,
        ) + seq!['-'] + radix_text(self.sink as nat, 2) + seq!['-'] + radix_text(
            self.sink_id as nat,
            2,
        ) + seq!['-'] + radix_text(self.weight as nat, 2) + seq![')']
    }

    /// Which layers the gene joins. Only meaningful where both types are 0
    /// or 1.
    pub open spec fn wiring(self) -> Wiring {
        if self.source == SOURCE_SENSOR && self.sink == SINK_INTERNAL {
            Wiring::SensorToInternal
        } else if self.source == SOURCE_INTERNAL && self.sink == SINK_MOTOR {
            Wiring::InternalToMotor
        } else {
            Wiring::Unmapped
        }
    }

    /// Why a brain with `num_internal` internal neurons refuses this gene,
    /// or `None` where it accepts it. A gene that joins two layers without
    /// synapses is accepted, and ignored.
    pub open spec fn fault(self, num_internal: int) -> Option<ConfigError> {
        if self.source > 1 || self.sink > 1 {
            Some(ConfigError::NeuronType)
        } else {
            match self.wiring() {
                Wiring::SensorToInternal => if self.source_id >= NUM_SENSORS {
                    Some(ConfigError::SensorId)
                } else if self.sink_id >= num_internal {
                    Some(ConfigError::InternalId)
                } else {
                    None
                },
                Wiring::InternalToMotor => if self.source_id >= num_internal {
                    Some(ConfigError::InternalId)
                } else if self.sink_id >= NUM_MOTORS {
                    Some(ConfigError::MotorId)
                } else {
                    None
                },
                Wiring::Unmapped => None,
            }
        }
    }

    /// Whether the gene wires a synapse of a brain with `num_internal`
    /// internal neurons: it joins two layers that have synapses between
    /// them, and both ids exist.
    pub open spec fn wired_for(self, num_internal: int) -> bool {
        self.source <= 1 && self.sink <= 1 && self.wiring() != Wiring::Unmapped && self.fault(
            num_internal,
        ) is None
    }

    /// The numbers of ids that a gene with the given source type can name:
    /// first for its source, then for its sink. A gene that starts at a
    /// sensor ends at an internal neuron, and one that starts at an internal
    /// neuron ends at a motor.
    pub fn id_bounds(source: u8, num_internal: u8) -> (bounds: (u8, u8))
        requires
            source <= 1,
        ensures
            bounds == if source == SOURCE_SENSOR {
                (NUM_SENSORS as u8, num_internal)
            } else {
                (num_internal, NUM_MOTORS as u8)
            },
    {
        if source == SOURCE_SENSOR {
            (NUM_SENSORS as u8, num_internal)
        } else {
            (num_internal, NUM_MOTORS as u8)
        }
    }

    /// The gene with the given source type, ids and weight, whose sink is
    /// in the layer that follows the layer of its source.
    pub fn wired(source: u8, source_id: u8, sink_id: u8, weight: u16) -> (gene: Gene)
        requires
            source <= 1,
        ensures
            gene == (Gene {
                source,
                source_id,
                sink: if source == SOURCE_SENSOR {
                    SINK_INTERNAL
                } else {
                    SINK_MOTOR
                },
                sink_id,
                weight,
            }),
            gene.wiring() != Wiring::Unmapped,
    {
        let sink: u8 = if source == SOURCE_SENSOR {
            SINK_INTERNAL
        } else {
            SINK_MOTOR
        };
        Gene { source, source_id, sink, sink_id, weight }
    }

    /// A gene drawn for a brain with `num_internal` internal neurons. The
    /// source type is drawn first, then each id below the number of neurons
    /// in its layer, then the weight; so whatever is drawn, the gene wires
    /// a synapse that such a brain has.
    pub fn new_random(rng: &mut StdRng, num_internal: u8) -> (gene: Gene)
        requires
            0 < num_internal <= MAX_INTERNAL,
        ensures
            gene.wired_for(num_internal as int),
            gene.fits(),
    {
        let source: u8 = draw_below(rng, 2) as u8;
        let bounds = Gene::id_bounds(source, num_internal);
        let source_id: u8 = draw_below(rng, bounds.0 as usize) as u8;
        let sink_id: u8 = draw_below(rng, bounds.1 as usize) as u8;
        let weight: u16 = draw_below(rng, 0x1_0000) as u16;
        Gene::wired(source, source_id, sink_id, weight)
    }

    /// Whether every field fits its width.
    pub fn is_packable(&self) -> (b: bool)
        ensures
            b == self.fits(),
    {
        self.source <= 1 && self.source_id <= 127 && self.sink <= 1 && self.sink_id <= 127
    }

    /// Packs the gene into its 32-bit record.
    pub fn encode(&self) -> (bits: u32)
        requires
            self.fits(),
        ensures
            bits == self.encoding(),
            Gene::decoding(bits) == *self,
    {
        let source: u32 = self.source as u32;
        let source_id: u32 = self.source_id as u32;
        let sink: u32 = self.sink as u32;
        let sink_id: u32 = self.sink_id as u32;
        let weight: u32 = self.weight as u32;
        proof {
            packed_fields_unpack(source, source_id, sink, sink_id, weight);
        }
        source * 0x8000_0000 + source_id * 0x100_0000 + sink * 0x80_0000 + sink_id * 0x1_0000
            + weight
    }

    /// The packed record in hexadecimal, with upper-case letters and
    /// without leading zeros.
    pub fn as_hex(&self) -> (text: String)
        requires
            self.fits(),
        ensures
            text@ == self.hex(),
    {
        let mut text = String::new();
        append_radix(&mut text, self.encode() as u64, 16);
        assert(text@ =~= self.hex());
        text
    }

    /// The five fields in binary, joined by hyphens, in round brackets.
    pub fn to_text(&self) -> (text: String)
        ensures
            text@ == self.text(),
    {
        proof {
            reveal_strlit("(");
            reveal_strlit("-");
            reveal_strlit(")");
        }
        let mut text = String::new();
        text.append("(");
        append_radix(&mut text, self.source as u64, 2);
        text.append("-");
        append_radix(&mut text, self.source_id as u64, 2);
        text.append("-");
        append_radix(&mut text, self.sink as u64, 2);
        text.append("-");
        append_radix(&mut text, self.sink_id as u64, 2);
        text.append("-");
        append_radix(&mut text, self.weight as u64, 2);
        text.append(")");
        assert(text@ =~= self.text());
        text
    }

    /// Unpacks a 32-bit record.
    pub fn decode(bits: u32) -> (gene: Gene)
        ensures
            gene == Gene::decoding(bits),
            gene.fits(),
            gene.encoding() == bits,
    {
        proof {
            unpacked_fields_pack(bits);
        }
        Gene {
            source: (bits / 0x8000_0000) as u8,
            source_id: ((bits / 0x100_0000) % 128) as u8,
            sink: ((bits / 0x80_0000) % 2) as u8,
            sink_id: ((bits / 0x1_0000) % 128) as u8,
            weight: (bits % 0x1_0000) as u16,
        }
    }

    /// Why a brain with `num_internal` internal neurons refuses this gene,
    /// if it does.
    pub fn check(&self, num_internal: usize) -> (r: Result<Wiring, ConfigError>)
        ensures
            r == match self.fault(num_internal as int) {
                Some(e) => Err::<Wiring, ConfigError>(e),
                None => Ok(self.wiring()),
            },
    {
        if self.source > 1 || self.sink > 1 {
            Err(ConfigError::NeuronType)
        } else if self.source == SOURCE_SENSOR && self.sink == SINK_INTERNAL {
            if self.source_id as usize >= NUM_SENSORS {
                Err(ConfigError::SensorId)
            } else if self.sink_id as usize >= num_internal {
                Err(ConfigError::InternalId)
            } else {
                Ok(Wiring::SensorToInternal)
            }
        } else if self.source == SOURCE_INTERNAL && self.sink == SINK_MOTOR {
            if self.source_id as usize >= num_internal {
                Err(ConfigError::InternalId)
            } else if self.sink_id as usize >= NUM_MOTORS {
                Err(ConfigError::MotorId)
            } else {
                Ok(Wiring::InternalToMotor)
            }
        } else {
            Ok(Wiring::Unmapped)
        }
    }
}

/// Five fields that fit their widths, packed, fill 32 bits and can be read
/// off the packed number again.
proof fn packed_fields_unpack(source: u32, source_id: u32, sink: u32, sink_id: u32, weight: u32)
    by (bit_vector)
    requires
        source <= 1,
        source_id <= 127,
        sink <= 1,
        sink_id <= 127,
        weight <= 0xffff,
    ensures
        ({
            let bits = source * 0x8000_0000 + source_id * 0x100_0000 + sink * 0x80_0000 + sink_id
                * 0x1_0000 + weight;
            &&& bits <= 0xffff_ffff
            &&& bits / 0x8000_0000 == source
            &&& (bits / 0x100_0000) % 128 == source_id
            &&& (bits / 0x80_0000) % 2 == sink
            &&& (bits / 0x1_0000) % 128 == sink_id
            &&& bits % 0x1_0000 == weight
        }),
{
}

/// The five fields read off a 32-bit number fit their widths and pack into
/// that number again.
proof fn unpacked_fields_pack(bits: u32)
    by (bit_vector)
    ensures
        bits / 0x8000_0000 <= 1,
        (bits / 0x100_0000) % 128 <= 127,
        (bits / 0x80_0000) % 2 <= 1,
        (bits / 0x1_0000) % 128 <= 127,
        bits % 0x1_0000 <= 0xffff,
        (bits / 0x8000_0000) * 0x8000_0000 + ((bits / 0x100_0000) % 128) * 0x100_0000 + ((bits
            / 0x80_0000) % 2) * 0x80_0000 + ((bits / 0x1_0000) % 128) * 0x1_0000 + bits % 0x1_0000
            == bits,
{
}

/// Decoding undoes encoding: a gene whose fields fit their widths comes back
/// unchanged from its packed record, which is a 32-bit number.
pub proof fn decode_inverts_encode(gene: Gene)
    requires
        gene.fits(),
    ensures
        0 <= gene.encoding() <= u32::MAX,
        Gene::decoding(gene.encoding() as u32) == gene,
{
    packed_fields_unpack(
        gene.source as u32,
        gene.source_id as u32,
        gene.sink as u32,
        gene.sink_id as u32,
        gene.weight as u32,
    );
}

/// Encoding undoes decoding: every 32-bit record is the packed form of the
/// gene it holds, and the fields of that gene fit their widths.
pub proof fn encode_inverts_decode(bits: u32)
    ensures
        Gene::decoding(bits).fits(),
        Gene::decoding(bits).encoding() == bits,
{
    unpacked_fields_pack(bits);
}

/// The hexadecimal text of a gene stands for the number that the gene packs
/// into: read as a number, it gives the packed record back.
pub proof fn hex_round_trip(gene: Gene)
    requires
        gene.fits(),
    ensures
        radix_value(gene.hex(), 16) == gene.encoding(),
        Gene::decoding(radix_value(gene.hex(), 16) as u32) == gene,
{
    decode_inverts_encode(gene);
    radix_text_round_trip(gene.encoding() as nat, 16);
}

/// A gene that wires a synapse of a brain with at most `MAX_INTERNAL`
/// internal neurons fits the packed record.
pub proof fn wired_gene_fits(gene: Gene, num_internal: int)
    requires
        gene.wired_for(num_internal),
        num_internal <= MAX_INTERNAL,
    ensures
        gene.fits(),
{
}

/// An ordered sequence of genes: what a creature inherits, and all that its
/// brain is compiled from.
#[derive(Debug, PartialEq, Eq)]
pub struct Genome {
    pub genome: Vec<Gene>,
}

impl View for Genome {
    type V = Seq<Gene>;

    open spec fn view(&self) -> Seq<Gene> {
        self.genome@
    }
}

impl Genome {
    /// Whether the fields of every gene fit their widths.
    pub open spec fn fits(genes: Seq<Gene>) -> bool {
        forall|i: int| 0 <= i < genes.len() ==> (#[trigger] genes[i]).fits()
    }

    /// The genes in hexadecimal, joined by hyphens; nothing for no genes.
    pub open spec fn hex(genes: Seq<Gene>) -> Seq<char>
        decreases genes.len(),
    {
        if genes.len() == 0 {
            Seq::empty()
        } else if genes.len() == 1 {
            genes[0].hex()
        } else {
            Genome::hex(genes.drop_last()) + seq!['-'] + genes.last().hex()
        }
    }

    /// Whether the fields of every gene fit their widths.
    pub fn is_packable(&self) -> (b: bool)
        ensures
            b == Genome::fits(self@),
    {
        let mut i: usize = 0;
        while i < self.genome.len()
            invariant
                0 <= i <= self.genome.len(),
                forall|k: int| 0 <= k < i ==> (#[trigger] self@[k]).fits(),
            decreases self.genome.len() - i,
        {
            if !self.genome[i].is_packable() {
                return false;
            }
            i += 1;
        }
        true
    }

    /// The genes in hexadecimal, joined by hyphens.
    pub fn to_text(&self) -> (text: String)
        requires
            Genome::fits(self@),
        ensures
            text@ == Genome::hex(self@),
    {
        let mut text = String::new();
        let mut i: usize = 0;
        assert(self@.take(0) == Seq::<Gene>::empty());
        while i < self.genome.len()
            invariant
                0 <= i <= self.genome.len(),
                Genome::fits(self@),
                text@ == Genome::hex(self@.take(i as int)),
            decreases self.genome.len() - i,
        {
            let ghost so_far = text@;
            if i > 0 {
                text.append("-");
            }
            let hex = self.genome[i].as_hex();
            text.append(hex.as_str());
            proof {
                let genes = self@.take(i + 1);
                assert(genes.drop_last() == self@.take(i as int));
                assert(genes.last() == self@[i as int]);
                if i > 0 {
                    reveal_strlit("-");
                    assert("-"@ =~= seq!['-']);
                    assert(text@ =~= (so_far + seq!['-']) + hex@);
                } else {
                    assert(genes[0] == self@[0]);
                    assert(text@ =~= hex@);
                }
            }
            i += 1;
        }
        assert(self@.take(self.genome.len() as int) == self@);
        text
    }

    /// Whether every gene wires a synapse of a brain with `num_internal`
    /// internal neurons.
    pub open spec fn wired_for(genes: Seq<Gene>, num_internal: int) -> bool {
        forall|i: int| 0 <= i < genes.len() ==> (#[trigger] genes[i]).wired_for(num_internal)
    }

    /// A genome of `num` genes drawn for a brain with `num_internal`
    /// internal neurons.
    pub fn new(rng: &mut StdRng, num: usize, num_internal: u8) -> (genome: Genome)
        requires
            0 < num_internal <= MAX_INTERNAL,
        ensures
            genome@.len() == num,
            Genome::wired_for(genome@, num_internal as int),
    {
        let mut genes: Vec<Gene> = Vec::new();
        let mut i: usize = 0;
        while i < num
            invariant
                0 <= i <= num,
                0 < num_internal <= MAX_INTERNAL,
                genes.len() == i,
                Genome::wired_for(genes@, num_internal as int),
            decreases num - i,
        {
            let gene = Gene::new_random(rng, num_internal);
            genes.push(gene);
            i += 1;
        }
        Genome { genome: genes }
    }
}

impl Clone for Genome {
    fn clone(&self) -> (copy: Self)
        ensures
            copy@ == self@,
    {
        let mut genes: Vec<Gene> = Vec::new();
        let mut i: usize = 0;
        while i < self.genome.len()
            invariant
                0 <= i <= self.genome.len(),
                genes@ == self.genome@.take(i as int),
            decreases self.genome.len() - i,
        {
            genes.push(self.genome[i]);
            assert(self.genome@.take(i + 1) == self.genome@.take(i as int).push(self.genome[i as int]));
            i += 1;
        }
        assert(self.genome@.take(self.genome.len() as int) == self.genome@);
        Genome { genome: genes }
    }
}

} // verus!
