use msp_gps_toy::gps::{GpsSim, GpsSol, RawGps, UtcTime, GPS_SOL_SIZE, RAW_GPS_SIZE};

#[test]
fn sensor_solution_bytes() {
    let sim = GpsSim::new();
    let t = UtcTime { year: 2024, month: 5, day: 1, hour: 6, min: 45, sec: 13 };
    let g = sim.sensor_solution(&t, -921, -391);
    let b = g.to_bytes();
    assert_eq!(b.len(), GPS_SOL_SIZE);
    assert_eq!(
        b,
        vec![
            1, 255, 255, 0, 0, 0, 0, 3, 13, 50, 0, 50, 0, 0, 0, 100, 0, 138, 32, 172, 83, 16, 178,
            80, 21, 16, 39, 0, 0, 121, 254, 255, 255, 103, 252, 255, 255, 0, 0, 0, 0, 124, 96, 255,
            255, 232, 7, 5, 1, 6, 45, 13
        ]
    );
}

#[test]
fn raw_solution_bytes() {
    let sim = GpsSim::new();
    let r = sim.raw_solution();
    let b = r.to_bytes();
    assert_eq!(b.len(), RAW_GPS_SIZE);
    assert_eq!(b, vec![3, 13, 16, 178, 80, 21, 138, 32, 172, 83, 100, 0, 232, 3]);
}

#[test]
fn raw_negative_values() {
    let r = RawGps { fix: 3, numsat: 13, lat: -5, lon: -1, alt: -2, gspd: 1000 };
    assert_eq!(r.to_bytes(), vec![3, 13, 251, 255, 255, 255, 255, 255, 255, 255, 254, 255, 232, 3]);
}

#[test]
fn defaults_are_zero() {
    assert_eq!(GpsSol::default().to_bytes(), vec![0u8; GPS_SOL_SIZE]);
    assert_eq!(RawGps::default().to_bytes(), vec![0u8; RAW_GPS_SIZE]);
}

#[test]
fn perturb_moves_the_craft() {
    let mut sim = GpsSim::new();
    sim.perturb(20, 50, -999, 999);
    assert_eq!(sim.numsat, 20);
    assert_eq!(sim.alt, 50);
    assert_eq!(sim.lat, 357610000 - 999);
    assert_eq!(sim.lon, 1403789450 + 999);
    let g = sim.sensor_solution(&UtcTime { year: 2024, month: 1, day: 2, hour: 3, min: 4, sec: 5 }, 0, 0);
    assert_eq!(g.mslaltitude, 5000);
    assert_eq!(g.groundcourse, 24700);
    assert_eq!(sim.raw_solution().gspd, 1000);
}
