use sharinflame::snowflake::{compose, decompose, GenerateStep, SnowflakeGenerator, EPOCH};

#[test]
fn compose_packs_parts_into_bits() {
    let id = compose(1, 2, 3, 4);
    assert_eq!(id, (1i64 << 22) | (2 << 17) | (3 << 12) | 4);
    assert_eq!(id, 4468740);
}

#[test]
fn decompose_reads_parts_back() {
    let id = compose(123456, 17, 9, 4000) as u64;
    assert_eq!(decompose(id), (123456 + EPOCH, 9, 17, 4000));
}

#[test]
fn first_id_in_a_new_millisecond_has_counter_zero() {
    let mut g = SnowflakeGenerator::new(3, 5);
    let id = g.try_generate_at(EPOCH + 10).unwrap();
    assert_eq!(decompose(id as u64), (EPOCH + 10, 3, 5, 0));
}

#[test]
fn ids_within_one_millisecond_count_up() {
    let mut g = SnowflakeGenerator::new(1, 2);
    let a = g.try_generate_at(EPOCH + 100).unwrap();
    let b = g.try_generate_at(EPOCH + 100).unwrap();
    let c = g.try_generate_at(EPOCH + 100).unwrap();
    assert!(a < b && b < c);
    assert_eq!(decompose(c as u64).3, 2);
}

#[test]
fn clock_going_back_waits() {
    let mut g = SnowflakeGenerator::new(0, 0);
    let a = g.try_generate_at(EPOCH + 500).unwrap();
    assert_eq!(g.try_generate_at(EPOCH + 499), None);
    let b = g.try_generate_at(EPOCH + 501).unwrap();
    assert!(b > a);
}

#[test]
fn counter_used_up_waits_for_next_millisecond() {
    let mut g = SnowflakeGenerator::new(0, 0);
    let mut last = g.try_generate_at(EPOCH + 7).unwrap();
    for _ in 0..4095 {
        let id = g.try_generate_at(EPOCH + 7).unwrap();
        assert!(id > last);
        last = id;
    }
    assert_eq!(g.try_generate_at(EPOCH + 7), None);
    let next = g.try_generate_at(EPOCH + 8).unwrap();
    assert!(next > last);
}

#[test]
fn clock_before_epoch_counts_as_epoch() {
    let mut g = SnowflakeGenerator::new(0, 0);
    let id = g.try_generate_at(1000).unwrap();
    assert_eq!(decompose(id as u64), (EPOCH, 0, 0, 1));
}

#[test]
fn different_workers_never_collide() {
    let mut g1 = SnowflakeGenerator::new(0, 1);
    let mut g2 = SnowflakeGenerator::new(0, 2);
    let a = g1.try_generate_at(EPOCH + 1).unwrap();
    let b = g2.try_generate_at(EPOCH + 1).unwrap();
    assert_ne!(a, b);
}

#[test]
fn next_id_reads_the_clock() {
    let mut g = SnowflakeGenerator::new(4, 6);
    match g.next_id() {
        GenerateStep::Issued(id) => {
            let (ts, sid, pid, _) = decompose(id as u64);
            assert!(ts > EPOCH);
            assert_eq!((sid, pid), (4, 6));
        }
        other => panic!("unexpected {:?}", other),
    }
    assert_eq!(g.server_id(), 4);
    assert_eq!(g.worker_id(), 6);
}

#[test]
fn next_id_at_follows_the_clock_reading() {
    let mut g = SnowflakeGenerator::new(3, 2);
    assert_eq!(g.next_id_at(None), GenerateStep::ClockOutOfRange);
    assert_eq!(g.next_id_at(Some(EPOCH + 5)), GenerateStep::Issued(compose(5, 2, 3, 0)));
    assert_eq!(g.next_id_at(Some(EPOCH + 5)), GenerateStep::Issued(compose(5, 2, 3, 1)));
    assert_eq!(g.next_id_at(Some(EPOCH + 4)), GenerateStep::Wait);
    assert_eq!(g.next_id_at(Some(u64::MAX)), GenerateStep::ClockOutOfRange);
}
