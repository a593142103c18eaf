use creature_sim::neurons::{InputNeuron, Internal, OutputNeuron};
use creature_sim::error::ConfigError;
use creature_sim::gene::{Gene, Genome, Wiring, MAX_INTERNAL};
use creature_sim::motors::{Motor, NUM_MOTORS};
use creature_sim::position::Position;
use creature_sim::sensors::{Sensor, NUM_SENSORS};
use creature_sim::text::append_radix;
use rand::rngs::StdRng;
use rand::SeedableRng;

fn gene(source: u8, source_id: u8, sink: u8, sink_id: u8, weight: u16) -> Gene {
    Gene { source, source_id, sink, sink_id, weight }
}

#[test]
fn encode_packs_fields_most_significant_first() {
    assert_eq!(gene(1, 1, 0, 3, 5).encode(), 0x8103_0005);
    assert_eq!(gene(0, 2, 0, 4, 7).encode(), 0x0204_0007);
    assert_eq!(gene(0, 0, 1, 0, 0).encode(), 0x0080_0000);
    assert_eq!(gene(0, 0, 0, 0, 0).encode(), 0);
    assert_eq!(gene(1, 127, 1, 127, 65535).encode(), 0xFFFF_FFFF);
}

#[test]
fn decode_unpacks_fields() {
    assert_eq!(Gene::decode(0x8103_0005), gene(1, 1, 0, 3, 5));
    assert_eq!(Gene::decode(0x0204_0007), gene(0, 2, 0, 4, 7));
    assert_eq!(Gene::decode(0), gene(0, 0, 0, 0, 0));
    assert_eq!(Gene::decode(0xFFFF_FFFF), gene(1, 127, 1, 127, 65535));
    assert_eq!(Gene::decode(0x7F00_0000), gene(0, 127, 0, 0, 0));
    assert_eq!(Gene::decode(0x007F_0000), gene(0, 0, 0, 127, 0));
}

#[test]
fn decode_inverts_encode_on_valid_fields() {
    for source in 0..=1u8 {
        for sink in 0..=1u8 {
            for source_id in [0u8, 1, 3, 64, 126, 127] {
                for sink_id in [0u8, 2, 5, 100, 127] {
                    for weight in [0u16, 1, 255, 256, 32768, 65535] {
                        let g = gene(source, source_id, sink, sink_id, weight);
                        assert!(g.is_packable());
                        assert_eq!(Gene::decode(g.encode()), g);
                    }
                }
            }
        }
    }
}

#[test]
fn encode_inverts_decode_on_all_kinds_of_bits() {
    let mut bits: u32 = 0;
    for _ in 0..20_000 {
        let g = Gene::decode(bits);
        assert!(g.is_packable());
        assert_eq!(g.encode(), bits);
        bits = bits.wrapping_mul(1_664_525).wrapping_add(1_013_904_223);
    }
    for bits in [0u32, 1, 0xFFFF, 0x1_0000, 0x7FFF_FFFF, 0x8000_0000, 0xFFFF_FFFF] {
        assert_eq!(Gene::decode(bits).encode(), bits);
    }
}

#[test]
fn is_packable_refuses_fields_that_are_too_wide() {
    assert!(gene(1, 127, 1, 127, 65535).is_packable());
    assert!(!gene(2, 0, 0, 0, 0).is_packable());
    assert!(!gene(0, 128, 0, 0, 0).is_packable());
    assert!(!gene(0, 0, 2, 0, 0).is_packable());
    assert!(!gene(0, 0, 0, 128, 0).is_packable());
}

#[test]
fn as_hex_is_upper_case_without_leading_zeros() {
    assert_eq!(gene(1, 1, 0, 3, 5).as_hex(), "81030005");
    assert_eq!(gene(0, 2, 0, 4, 7).as_hex(), "2040007");
    assert_eq!(gene(0, 0, 0, 0, 0).as_hex(), "0");
    assert_eq!(gene(0, 0, 0, 0, 0xABCD).as_hex(), "ABCD");
    assert_eq!(gene(1, 127, 1, 127, 65535).as_hex(), "FFFFFFFF");
}

#[test]
fn as_hex_round_trips_through_the_encoded_integer() {
    let mut bits: u32 = 12345;
    for _ in 0..2_000 {
        let g = Gene::decode(bits);
        let hex = g.as_hex();
        assert_eq!(hex, format!("{:X}", bits));
        assert_eq!(u32::from_str_radix(&hex, 16).unwrap(), g.encode());
        bits = bits.wrapping_mul(1_664_525).wrapping_add(1_013_904_223);
    }
}

#[test]
fn gene_text_shows_the_fields_in_binary() {
    assert_eq!(gene(1, 1, 0, 3, 5).to_text(), "(1-1-0-11-101)");
    assert_eq!(gene(0, 0, 0, 0, 0).to_text(), "(0-0-0-0-0)");
    assert_eq!(
        gene(1, 127, 1, 127, 65535).to_text(),
        "(1-1111111-1-1111111-1111111111111111)"
    );
    assert_eq!(gene(255, 0, 0, 0, 0).to_text(), "(11111111-0-0-0-0)");
}

#[test]
fn genome_text_joins_hex_genes_with_hyphens() {
    let genome = Genome { genome: vec![gene(1, 1, 0, 3, 5), gene(0, 2, 0, 4, 7), gene(0, 0, 0, 0, 0)] };
    assert!(genome.is_packable());
    assert_eq!(genome.to_text(), "81030005-2040007-0");
    let single = Genome { genome: vec![gene(0, 3, 0, 0, 100)] };
    assert_eq!(single.to_text(), "3000064");
    let empty = Genome { genome: vec![] };
    assert!(empty.is_packable());
    assert_eq!(empty.to_text(), "");
}

#[test]
fn genome_with_a_wide_field_is_not_packable() {
    let genome = Genome { genome: vec![gene(0, 0, 0, 0, 1), gene(0, 200, 0, 0, 1)] };
    assert!(!genome.is_packable());
}

#[test]
fn genome_clone_is_equal() {
    let genome = Genome { genome: vec![gene(1, 1, 1, 3, 5), gene(0, 2, 0, 4, 7)] };
    assert_eq!(genome.clone(), genome);
}

#[test]
fn check_classifies_genes() {
    assert_eq!(gene(0, 3, 0, 4, 9).check(5), Ok(Wiring::SensorToInternal));
    assert_eq!(gene(1, 4, 1, 3, 9).check(5), Ok(Wiring::InternalToMotor));
    assert_eq!(gene(0, 3, 1, 3, 9).check(5), Ok(Wiring::Unmapped));
    assert_eq!(gene(1, 3, 0, 3, 9).check(5), Ok(Wiring::Unmapped));
    // an unmapped gene is ignored, whatever its ids
    assert_eq!(gene(0, 100, 1, 100, 9).check(5), Ok(Wiring::Unmapped));
}

#[test]
fn check_reports_each_fault() {
    assert_eq!(gene(2, 0, 0, 0, 0).check(5), Err(ConfigError::NeuronType));
    assert_eq!(gene(0, 0, 2, 0, 0).check(5), Err(ConfigError::NeuronType));
    assert_eq!(gene(0, 4, 0, 0, 0).check(5), Err(ConfigError::SensorId));
    assert_eq!(gene(0, 3, 0, 5, 0).check(5), Err(ConfigError::InternalId));
    assert_eq!(gene(1, 5, 1, 0, 0).check(5), Err(ConfigError::InternalId));
    assert_eq!(gene(1, 4, 1, 4, 0).check(5), Err(ConfigError::MotorId));
    // the source is looked at before the sink
    assert_eq!(gene(0, 4, 0, 5, 0).check(5), Err(ConfigError::SensorId));
    assert_eq!(gene(1, 5, 1, 4, 0).check(5), Err(ConfigError::InternalId));
    // with no internal neurons nothing can be wired
    assert_eq!(gene(0, 0, 0, 0, 0).check(0), Err(ConfigError::InternalId));
}

#[test]
fn id_bounds_follow_the_source_type() {
    assert_eq!(Gene::id_bounds(0, 5), (4, 5));
    assert_eq!(Gene::id_bounds(1, 5), (5, 4));
    assert_eq!(Gene::id_bounds(0, 128), (NUM_SENSORS as u8, 128));
    assert_eq!(Gene::id_bounds(1, 1), (1, NUM_MOTORS as u8));
}

#[test]
fn wired_sets_the_sink_type_from_the_source_type() {
    assert_eq!(Gene::wired(0, 3, 4, 77), gene(0, 3, 0, 4, 77));
    assert_eq!(Gene::wired(1, 4, 2, 78), gene(1, 4, 1, 2, 78));
}

#[test]
fn random_genes_are_wired_for_the_brain() {
    let mut rng = StdRng::seed_from_u64(7);
    for num_internal in [1u8, 2, 5, 100, MAX_INTERNAL] {
        let mut sensor_sourced = 0;
        let mut internal_sourced = 0;
        for _ in 0..500 {
            let g = Gene::new_random(&mut rng, num_internal);
            assert!(g.is_packable());
            match g.check(num_internal as usize) {
                Ok(Wiring::SensorToInternal) => {
                    sensor_sourced += 1;
                    assert!((g.source_id as usize) < NUM_SENSORS);
                    assert!(g.sink_id < num_internal);
                }
                Ok(Wiring::InternalToMotor) => {
                    internal_sourced += 1;
                    assert!(g.source_id < num_internal);
                    assert!((g.sink_id as usize) < NUM_MOTORS);
                }
                other => panic!("a random gene must be wired, got {:?}", other),
            }
            assert_eq!(Gene::decode(g.encode()), g);
        }
        assert!(sensor_sourced > 0);
        assert!(internal_sourced > 0);
    }
}

#[test]
fn random_genes_cover_their_ranges() {
    let mut rng = StdRng::seed_from_u64(11);
    let mut seen_sensor = [false; 4];
    let mut seen_motor = [false; 4];
    let mut seen_internal = [false; 3];
    let mut large_weight = false;
    for _ in 0..2_000 {
        let g = Gene::new_random(&mut rng, 3);
        if g.source == 0 {
            seen_sensor[g.source_id as usize] = true;
            seen_internal[g.sink_id as usize] = true;
        } else {
            seen_motor[g.sink_id as usize] = true;
        }
        if g.weight > 60_000 {
            large_weight = true;
        }
    }
    assert!(seen_sensor.iter().all(|b| *b));
    assert!(seen_motor.iter().all(|b| *b));
    assert!(seen_internal.iter().all(|b| *b));
    assert!(large_weight);
}

#[test]
fn random_genome_has_the_length_asked_for() {
    let mut rng = StdRng::seed_from_u64(3);
    for num in [0usize, 1, 20, 300] {
        let genome = Genome::new(&mut rng, num, 5);
        assert_eq!(genome.genome.len(), num);
        assert!(genome.is_packable());
        for g in &genome.genome {
            assert!(matches!(
                g.check(5),
                Ok(Wiring::SensorToInternal) | Ok(Wiring::InternalToMotor)
            ));
        }
    }
}

#[test]
fn the_same_seed_gives_the_same_genome() {
    let mut first = StdRng::seed_from_u64(99);
    let mut second = StdRng::seed_from_u64(99);
    assert_eq!(Genome::new(&mut first, 50, 5), Genome::new(&mut second, 50, 5));
    let mut third = StdRng::seed_from_u64(100);
    assert_ne!(Genome::new(&mut first, 50, 5), Genome::new(&mut third, 50, 5));
}

#[test]
fn positions_are_drawn_inside_the_grid() {
    let mut rng = StdRng::seed_from_u64(5);
    let mut corners = [false; 4];
    for _ in 0..500 {
        let p = Position::gen_new(&mut rng, 2, 3);
        assert!(p.x < 2);
        assert!(p.y < 3);
        if p.y != 1 {
            corners[p.x * 2 + p.y / 2] = true;
        }
    }
    assert!(corners.iter().all(|b| *b));
    for _ in 0..20 {
        assert_eq!(Position::gen_new(&mut rng, 1, 1), Position { x: 0, y: 0 });
    }
}

#[test]
fn motors_have_the_ids_zero_to_three() {
    assert_eq!(Motor::new(0), Ok(Motor::Up));
    assert_eq!(Motor::new(1), Ok(Motor::Down));
    assert_eq!(Motor::new(2), Ok(Motor::Left));
    assert_eq!(Motor::new(3), Ok(Motor::Right));
    assert_eq!(Motor::new(4), Err(ConfigError::MotorId));
    assert_eq!(Motor::new(255), Err(ConfigError::MotorId));
    for id in 0..NUM_MOTORS {
        assert_eq!(Motor::new(id as u8).unwrap().get_id(), id);
    }
}

#[test]
fn sensors_have_the_ids_zero_to_three() {
    assert_eq!(Sensor::new(0), Ok(Sensor::Up));
    assert_eq!(Sensor::new(1), Ok(Sensor::Down));
    assert_eq!(Sensor::new(2), Ok(Sensor::Left));
    assert_eq!(Sensor::new(3), Ok(Sensor::Right));
    assert_eq!(Sensor::new(4), Err(ConfigError::SensorId));
    assert_eq!(Sensor::new(200), Err(ConfigError::SensorId));
    for id in 0..NUM_SENSORS {
        assert_eq!(Sensor::new(id as u8).unwrap().get_id(), id);
    }
    assert_eq!(Sensor::Up.get_id(), 0);
    assert_eq!(Sensor::Down.get_id(), 1);
    assert_eq!(Sensor::Left.get_id(), 2);
    assert_eq!(Sensor::Right.get_id(), 3);
}

#[test]
fn sensors_face_the_motor_of_their_direction() {
    assert_eq!(Sensor::Up.facing(), Motor::Up);
    assert_eq!(Sensor::Down.facing(), Motor::Down);
    assert_eq!(Sensor::Left.facing(), Motor::Left);
    assert_eq!(Sensor::Right.facing(), Motor::Right);
}

#[test]
fn motor_targets_stop_at_the_edges() {
    let middle = Position { x: 1, y: 1 };
    assert_eq!(Motor::Up.target(middle, 3, 3), Some(Position { x: 1, y: 2 }));
    assert_eq!(Motor::Down.target(middle, 3, 3), Some(Position { x: 1, y: 0 }));
    assert_eq!(Motor::Left.target(middle, 3, 3), Some(Position { x: 0, y: 1 }));
    assert_eq!(Motor::Right.target(middle, 3, 3), Some(Position { x: 2, y: 1 }));
    let low = Position { x: 0, y: 0 };
    assert_eq!(Motor::Down.target(low, 3, 3), None);
    assert_eq!(Motor::Left.target(low, 3, 3), None);
    let high = Position { x: 2, y: 2 };
    assert_eq!(Motor::Up.target(high, 3, 3), None);
    assert_eq!(Motor::Right.target(high, 3, 3), None);
    let far = Position { x: usize::MAX, y: usize::MAX };
    assert_eq!(Motor::Up.target(far, usize::MAX, usize::MAX), None);
    assert_eq!(Motor::Right.target(far, usize::MAX, usize::MAX), None);
}

#[test]
fn genes_name_the_neurons_at_their_ends() {
    assert_eq!(gene(0, 2, 0, 9, 1).source_neuron(), Some(InputNeuron::Sensor(Sensor::Left)));
    assert_eq!(gene(0, 4, 0, 9, 1).source_neuron(), None);
    assert_eq!(gene(1, 9, 0, 9, 1).source_neuron(), Some(InputNeuron::Internal(Internal::Internal)));
    assert_eq!(gene(2, 0, 0, 0, 1).source_neuron(), None);
    assert_eq!(gene(0, 0, 0, 9, 1).sink_neuron(), Some(OutputNeuron::Internal(Internal::Internal)));
    assert_eq!(gene(0, 0, 1, 3, 1).sink_neuron(), Some(OutputNeuron::Motor(Motor::Right)));
    assert_eq!(gene(0, 0, 1, 4, 1).sink_neuron(), None);
    assert_eq!(gene(0, 0, 2, 0, 1).sink_neuron(), None);
}

#[test]
fn numbers_are_written_in_any_base_up_to_sixteen() {
    let mut text = String::from("n=");
    append_radix(&mut text, 0, 10);
    assert_eq!(text, "n=0");
    append_radix(&mut text, 1234567890, 10);
    assert_eq!(text, "n=01234567890");
    let mut text = String::new();
    append_radix(&mut text, u64::MAX, 16);
    assert_eq!(text, "FFFFFFFFFFFFFFFF");
    let mut text = String::new();
    append_radix(&mut text, 10, 2);
    assert_eq!(text, "1010");
    let mut text = String::new();
    append_radix(&mut text, 0xDEADBEEF, 16);
    assert_eq!(text, "DEADBEEF");
    let mut text = String::new();
    append_radix(&mut text, 8, 8);
    assert_eq!(text, "10");
    for n in [0u64, 9, 10, 99, 100, 65535, 1 << 40] {
        let mut text = String::new();
        append_radix(&mut text, n, 10);
        assert_eq!(text, format!("{}", n));
        let mut text = String::new();
        append_radix(&mut text, n, 16);
        assert_eq!(text, format!("{:X}", n));
        let mut text = String::new();
        append_radix(&mut text, n, 2);
        assert_eq!(text, format!("{:b}", n));
    }
}
