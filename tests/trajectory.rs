use nbody::trajectory::{
    body_count, frames_from_records, push_decimal, read_trajectory, trajectory_header,
    TrajectoryError,
};

#[test]
fn header_names_each_body_column() {
    assert_eq!(trajectory_header(0), "time");
    assert_eq!(trajectory_header(1), "time,body0_x,body0_y,body0_z");
    assert_eq!(
        trajectory_header(2),
        "time,body0_x,body0_y,body0_z,body1_x,body1_y,body1_z"
    );
}

#[test]
fn header_uses_decimal_body_numbers() {
    let h = trajectory_header(12);
    assert!(h.ends_with(",body11_x,body11_y,body11_z"));
    assert!(h.contains(",body10_x,"));
}

#[test]
fn header_width_gives_back_the_body_count() {
    for n in 1..30 {
        let fields = trajectory_header(n).split(',').count();
        assert_eq!(fields, 1 + 3 * n);
        assert_eq!(body_count(fields), Ok(n));
    }
}

#[test]
fn body_count_needs_four_columns() {
    assert_eq!(body_count(0), Err(TrajectoryError::TooFewColumns));
    assert_eq!(body_count(3), Err(TrajectoryError::TooFewColumns));
    assert_eq!(body_count(4), Ok(1));
    assert_eq!(body_count(6), Ok(1));
    assert_eq!(body_count(7), Ok(2));
    assert_eq!(body_count(10), Ok(3));
}

#[test]
fn decimal_forms() {
    for n in [0usize, 7, 9, 10, 42, 100, 12345, usize::MAX] {
        let mut s = String::from("#");
        push_decimal(&mut s, n);
        assert_eq!(s, format!("#{}", n));
    }
}

fn coordinates(text: &str) -> (usize, Vec<(String, Vec<String>)>) {
    let t = read_trajectory(text.as_bytes()).unwrap();
    (t.num_bodies, t.frames.into_iter().map(|f| (f.time, f.coordinates)).collect())
}

#[test]
fn reads_frames_in_order() {
    let (n, frames) = coordinates("time,body0_x,body0_y,body0_z\n0.5,1,2,3\n1.5,4,5,-6\n");
    assert_eq!(n, 1);
    assert_eq!(frames.len(), 2);
    assert_eq!(frames[0].0, "0.5");
    assert_eq!(frames[0].1, vec!["1", "2", "3"]);
    assert_eq!(frames[1].0, "1.5");
    assert_eq!(frames[1].1, vec!["4", "5", "-6"]);
}

#[test]
fn columns_beyond_whole_bodies_are_not_read() {
    let (n, frames) = coordinates("t,a,b,c,d,e\n0,1,2,3,4,5\n");
    assert_eq!(n, 1);
    assert_eq!(frames[0].1, vec!["1", "2", "3"]);
}

#[test]
fn header_without_rows_has_no_records() {
    let r = read_trajectory(b"time,body0_x,body0_y,body0_z\n");
    assert_eq!(r.unwrap_err(), TrajectoryError::NoRecords);
    assert_eq!(read_trajectory(b"").unwrap_err(), TrajectoryError::NoRecords);
}

#[test]
fn three_columns_are_too_few() {
    let r = read_trajectory(b"time,x,y\n0,1,2\n");
    assert_eq!(r.unwrap_err(), TrajectoryError::TooFewColumns);
}

#[test]
fn rows_of_another_width_are_malformed() {
    let r = read_trajectory(b"time,body0_x,body0_y,body0_z\n0,1,2,3\n1,4,5\n");
    assert_eq!(r.unwrap_err(), TrajectoryError::Malformed);
    let r = read_trajectory(b"time,body0_x,body0_y,body0_z\n0,1,2,3,4\n");
    assert_eq!(r.unwrap_err(), TrajectoryError::Malformed);
}

#[test]
fn invalid_utf8_is_malformed() {
    let r = read_trajectory(b"time,body0_x,body0_y,body0_z\n0,1,2,\xff\n");
    assert_eq!(r.unwrap_err(), TrajectoryError::Malformed);
}

#[test]
fn records_short_of_the_first_width_miss_a_column() {
    let rows = vec![
        vec!["0".to_string(), "1".to_string(), "2".to_string(), "3".to_string()],
        vec!["1".to_string(), "4".to_string()],
    ];
    assert_eq!(frames_from_records(&rows).unwrap_err(), TrajectoryError::MissingColumn);
    let none: Vec<Vec<String>> = Vec::new();
    assert_eq!(frames_from_records(&none).unwrap_err(), TrajectoryError::NoRecords);
}

#[test]
fn written_trajectory_reads_back() {
    let positions: Vec<Vec<[f64; 3]>> = vec![
        vec![[0.0, 0.0, 0.0], [1e11, -2.5e10, 3.0]],
        vec![[1.234567891, -0.5, 7.0], [9.99e10, -2.4e10, 3.00000001]],
        vec![[2.0, 1e-9, -7.25], [9.8e10, 0.0, 2.5]],
    ];
    let mut text = trajectory_header(2);
    text.push('\n');
    for (step, frame) in positions.iter().enumerate() {
        text.push_str(&format!("{:.8}", 86400.0 * (step + 1) as f64));
        for p in frame {
            text.push_str(&format!(",{:.8},{:.8},{:.8}", p[0], p[1], p[2]));
        }
        text.push('\n');
    }
    let (n, frames) = coordinates(&text);
    assert_eq!(n, 2);
    assert_eq!(frames.len(), positions.len());
    for (frame, expected) in frames.iter().zip(positions.iter()) {
        for b in 0..2 {
            for axis in 0..3 {
                let got: f64 = frame.1[3 * b + axis].parse().unwrap();
                assert!((got - expected[b][axis]).abs() <= 0.5e-8 * (1.0 + expected[b][axis].abs()));
            }
        }
    }
}
