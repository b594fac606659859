use sample_recorder::digits::FRAC_DENOM;
use sample_recorder::recording::{Recording, SampleInput, NUMBER_OF_ENTRIES_PER_MIN};

fn varied_inputs() -> Vec<SampleInput> {
    let mut inputs = Vec::new();
    for i in 0..NUMBER_OF_ENTRIES_PER_MIN {
        let base = (i as u32).wrapping_mul(2654435761) % FRAC_DENOM;
        inputs.push(SampleInput {
            t: 1000 + (i as u32) * 33,
            ax: base,
            ay: (base + 17) % FRAC_DENOM,
            az: (base + 34) % FRAC_DENOM,
            gx: (base + 51) % FRAC_DENOM,
            gy: (base + 68) % FRAC_DENOM,
            gz: (base + 85) % FRAC_DENOM,
        });
    }
    inputs
}

fn frac_token(m: u32) -> String {
    format!("0.{:09}", m)
}

fn expected_document(rec: &Recording) -> String {
    let mut doc = format!("{{\"start_time\":{},\"accelerations\":[", rec.start_time);
    for (i, a) in rec.accelerations.iter().enumerate() {
        if i > 0 {
            doc.push(',');
        }
        doc.push_str(&format!(
            "{{\"t\":{},\"x\":{},\"y\":{},\"z\":{}}}",
            a.t,
            frac_token(a.x),
            frac_token(a.y),
            frac_token(a.z)
        ));
    }
    doc.push_str("],\"gyroscope_angles\":[");
    for (i, g) in rec.gyroscope_angles.iter().enumerate() {
        if i > 0 {
            doc.push(',');
        }
        doc.push_str(&format!(
            "{{\"t\":{},\"x\":{},\"y\":{},\"z\":{}}}",
            g.t,
            frac_token(g.x),
            frac_token(g.y),
            frac_token(g.z)
        ));
    }
    doc.push_str("]}");
    doc
}

#[test]
fn to_json_is_the_expected_document_byte_for_byte() {
    let mut rec = Recording::new(42);
    rec.record_sample_at(0, 123456, 500000000, 250000000, 1, 999999999, 0, 42);
    let bytes = rec.to_json();
    assert_eq!(bytes, expected_document(&rec).into_bytes());
}

#[test]
fn to_json_of_a_simulated_recording_matches_the_format() {
    let mut rec = Recording::new(77);
    rec.simulate_with(&varied_inputs());
    let bytes = rec.to_json();
    assert_eq!(bytes, expected_document(&rec).into_bytes());
}

#[test]
fn round_trip_preserves_the_recording() {
    let mut rec = Recording::new(987654321);
    rec.simulate_with(&varied_inputs());
    let bytes = rec.to_json();
    let back = Recording::from_json(&bytes).expect("the canonical document parses");
    assert_eq!(back, rec);
}

#[test]
fn round_trip_preserves_a_zeroed_recording() {
    let rec = Recording::new(0);
    let back = Recording::from_json(&rec.to_json()).expect("the canonical document parses");
    assert_eq!(back, rec);
}

#[test]
fn serde_json_reads_the_document_with_full_arrays() {
    let mut rec = Recording::new(42);
    rec.record_sample_at(0, 9, 500000000, 250000000, 0, 750000000, 1000, 0);
    let bytes = rec.to_json();
    let value: serde_json::Value = serde_json::from_slice(&bytes).expect("valid JSON");
    assert_eq!(value["start_time"].as_u64(), Some(42));
    assert_eq!(value["accelerations"].as_array().unwrap().len(), 1800);
    assert_eq!(value["gyroscope_angles"].as_array().unwrap().len(), 1800);
    assert_eq!(value["accelerations"][0]["t"].as_u64(), Some(9));
    assert_eq!(value["accelerations"][0]["x"].as_f64(), Some(0.5));
    assert_eq!(value["accelerations"][0]["y"].as_f64(), Some(0.25));
    assert_eq!(value["gyroscope_angles"][0]["x"].as_f64(), Some(0.75));
}

#[test]
fn from_json_rejects_malformed_documents() {
    let rec = Recording::new(3);
    let good = rec.to_json();
    assert!(Recording::from_json(&good).is_some());

    assert!(Recording::from_json(&Vec::new()).is_none());

    let mut truncated = good.clone();
    truncated.pop();
    assert!(Recording::from_json(&truncated).is_none());

    let mut trailing = good.clone();
    trailing.push(b' ');
    assert!(Recording::from_json(&trailing).is_none());

    let mut bad_key = good.clone();
    bad_key[2] = b'S';
    assert!(Recording::from_json(&bad_key).is_none());

    let garbage = b"{\"start_time\":1,\"accelerations\":[],\"gyroscope_angles\":[]}".to_vec();
    assert!(Recording::from_json(&garbage).is_none());
}
