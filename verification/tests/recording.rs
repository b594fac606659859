use sample_recorder::digits::FRAC_DENOM;
use sample_recorder::recording::{
    Recording, SampleInput, SaveError, MAX_NANOSEC, NUMBER_OF_ENTRIES_PER_MIN,
    NUMBER_OF_ENTRIES_PER_SECOND, SLEEP_MILLISEC,
};
use sample_recorder::sample::{Acceleration, Gyroscope};

fn inputs_with_increasing_times() -> Vec<SampleInput> {
    let mut inputs = Vec::new();
    for i in 0..NUMBER_OF_ENTRIES_PER_MIN {
        let base = (i as u32) * 7 % FRAC_DENOM;
        inputs.push(SampleInput {
            t: (i as u32) * 33,
            ax: base,
            ay: (base + 1) % FRAC_DENOM,
            az: (base + 2) % FRAC_DENOM,
            gx: (base + 3) % FRAC_DENOM,
            gy: (base + 4) % FRAC_DENOM,
            gz: (base + 5) % FRAC_DENOM,
        });
    }
    inputs
}

#[test]
fn constants_match_rate_times_duration() {
    assert_eq!(NUMBER_OF_ENTRIES_PER_SECOND, 30);
    assert_eq!(NUMBER_OF_ENTRIES_PER_MIN, 1800);
    assert_eq!(SLEEP_MILLISEC, 33);
}

#[test]
fn new_recording_is_zeroed_and_full_length() {
    let rec = Recording::new(7);
    assert_eq!(rec.start_time, 7);
    assert_eq!(rec.accelerations.len(), NUMBER_OF_ENTRIES_PER_MIN);
    assert_eq!(rec.gyroscope_angles.len(), NUMBER_OF_ENTRIES_PER_MIN);
    for a in &rec.accelerations {
        assert_eq!(*a, Acceleration { t: 7, x: 0, y: 0, z: 0 });
    }
    for g in &rec.gyroscope_angles {
        assert_eq!(*g, Gyroscope { t: 7, x: 0, y: 0, z: 0 });
    }
    assert!(rec.is_well_formed());
}

#[test]
fn start_now_is_well_formed_and_in_clock_range() {
    let rec = Recording::start_now();
    assert!(rec.is_well_formed());
    assert!(rec.start_time <= MAX_NANOSEC);
}

#[test]
fn record_sample_at_writes_both_sequences() {
    let mut rec = Recording::new(0);
    rec.record_sample_at(5, 123, 10, 20, 30, 40, 50, 60);
    assert_eq!(rec.accelerations[5], Acceleration { t: 123, x: 10, y: 20, z: 30 });
    assert_eq!(rec.gyroscope_angles[5], Gyroscope { t: 123, x: 40, y: 50, z: 60 });
    assert_eq!(rec.accelerations[4], Acceleration { t: 0, x: 0, y: 0, z: 0 });
    assert_eq!(rec.accelerations[6], Acceleration { t: 0, x: 0, y: 0, z: 0 });
    assert_eq!(rec.gyroscope_angles[4], Gyroscope { t: 0, x: 0, y: 0, z: 0 });
}

#[test]
fn record_sample_pairs_the_timestamp() {
    let mut rec = Recording::new(0);
    let t = rec.record_sample(0, 1, 2, 3, 4, 5, 6);
    assert!(t <= MAX_NANOSEC);
    assert_eq!(rec.accelerations[0].t, t);
    assert_eq!(rec.gyroscope_angles[0].t, t);
}

#[test]
fn simulate_with_fills_both_sequences_completely() {
    let inputs = inputs_with_increasing_times();
    let mut rec = Recording::new(9);
    rec.simulate_with(&inputs);
    assert_eq!(rec.accelerations.len(), 1800);
    assert_eq!(rec.gyroscope_angles.len(), 1800);
    assert_eq!(rec.start_time, 9);
    for i in 0..NUMBER_OF_ENTRIES_PER_MIN {
        let inp = &inputs[i];
        assert_eq!(
            rec.accelerations[i],
            Acceleration { t: inp.t, x: inp.ax, y: inp.ay, z: inp.az }
        );
        assert_eq!(
            rec.gyroscope_angles[i],
            Gyroscope { t: inp.t, x: inp.gx, y: inp.gy, z: inp.gz }
        );
    }
}

#[test]
fn simulate_with_pairs_timestamps() {
    let inputs = inputs_with_increasing_times();
    let mut rec = Recording::new(0);
    rec.simulate_with(&inputs);
    for i in 0..NUMBER_OF_ENTRIES_PER_MIN {
        assert_eq!(rec.accelerations[i].t, rec.gyroscope_angles[i].t);
    }
}

#[test]
fn simulate_with_keeps_nondecreasing_timestamps() {
    let inputs = inputs_with_increasing_times();
    let mut rec = Recording::new(0);
    rec.simulate_with(&inputs);
    for i in 1..NUMBER_OF_ENTRIES_PER_MIN {
        assert!(rec.accelerations[i - 1].t <= rec.accelerations[i].t);
        assert!(rec.gyroscope_angles[i - 1].t <= rec.gyroscope_angles[i].t);
    }
}

#[test]
fn save_plan_refuses_preexisting_file() {
    let rec = Recording::new(4);
    let r = rec.save_plan(true);
    assert_eq!(r, Err(SaveError::PreexistingFile));
}

#[test]
fn save_plan_yields_the_document_when_target_is_free() {
    let rec = Recording::new(4);
    let bytes = rec.save_plan(false).unwrap();
    assert_eq!(bytes, rec.to_json());
}

#[test]
fn save_error_variants_are_distinct() {
    assert_ne!(SaveError::PreexistingFile, SaveError::FileIOFailure);
    assert_ne!(SaveError::PreexistingFile, SaveError::SerializationFailure);
    assert_ne!(SaveError::SerializationFailure, SaveError::FileIOFailure);
}

#[test]
fn is_well_formed_rejects_wrong_lengths_and_magnitudes() {
    let empty = Recording { start_time: 0, accelerations: Vec::new(), gyroscope_angles: Vec::new() };
    assert!(!empty.is_well_formed());
    let mut bad = Recording::new(0);
    bad.accelerations[3].x = FRAC_DENOM;
    assert!(!bad.is_well_formed());
    let mut bad_gyro = Recording::new(0);
    bad_gyro.gyroscope_angles[1799].z = FRAC_DENOM + 5;
    assert!(!bad_gyro.is_well_formed());
}

#[test]
fn sample_save_data_overwrites_in_place() {
    let mut a = Acceleration::new(3);
    a.save_data(8, 1, 2, 3);
    assert_eq!(a, Acceleration { t: 8, x: 1, y: 2, z: 3 });
    let mut g = Gyroscope::new(3);
    g.save_data(9, 4, 5, 6);
    assert_eq!(g, Gyroscope { t: 9, x: 4, y: 5, z: 6 });
}
