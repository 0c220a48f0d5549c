use f256::f256;
use resistor_net::dists::{rng_from_seed, WeibullDist};
use resistor_net::driver::{
    eta_seconds, hms_parts, ExportMode, TimingWindow, TrialDriver, ETA_WINDOW_CAP,
};
use resistor_net::lattice::{n_res, n_unk};
use resistor_net::scalar::{from_f256, PrecisionStr, Scalar};

#[test]
fn test_end_to_end_single_trial() {
    // One seeded trial on an L=6 lattice with Weibull(1.0) and no
    // export: the driver terminates with exactly one record and no
    // failure for a non-singular draw.
    let dist = WeibullDist::new(from_f256(f256::ONE));
    let mut driver = TrialDriver::new(dist, 6, 4, 1, ExportMode::NoExport, from_f256(f256::ZERO));
    let mut rng = rng_from_seed(42);
    let records = driver.run(&mut rng);
    assert_eq!(records.len(), 1);
    let record = &records[0];
    assert_eq!(record.iter, 0);
    assert!(record.outcome.is_ok());
    assert_eq!(record.solution.len(), n_unk(6));
    assert_eq!(record.conductances.len(), n_res(6));
    assert!(record.surface.is_none());
}

#[test]
fn test_driver_surface_export() {
    // With isosurface export on, a successful trial carries a surface.
    let dist = WeibullDist::new(from_f256(f256::ONE));
    let mut driver = TrialDriver::new(dist, 5, 2, 3, ExportMode::ExportIsoSurface, from_f256(f256::ZERO));
    let mut rng = rng_from_seed(99);
    let records = driver.run(&mut rng);
    assert_eq!(records.len(), 3);
    for record in &records {
        if record.outcome.is_ok() {
            let surface = record.surface.as_ref().unwrap();
            for &(row, col) in surface {
                assert!(row < 5 && col < 3);
            }
        } else {
            assert!(record.surface.is_none());
        }
    }
}

#[test]
fn test_export_mode_flags() {
    assert!(!ExportMode::NoExport.wants_arrays());
    assert!(!ExportMode::NoExport.wants_isosurface());
    assert!(ExportMode::ExportArrays.wants_arrays());
    assert!(!ExportMode::ExportArrays.wants_isosurface());
    assert!(!ExportMode::ExportIsoSurface.wants_arrays());
    assert!(ExportMode::ExportIsoSurface.wants_isosurface());
    assert!(ExportMode::ExportArraysAndIsoSurface.wants_arrays());
    assert!(ExportMode::ExportArraysAndIsoSurface.wants_isosurface());
}

#[test]
fn test_window_evicts_oldest() {
    let mut w = TimingWindow::new();
    for d in 0..(ETA_WINDOW_CAP as u64 + 5) {
        w.push(d);
    }
    assert_eq!(w.times.len(), ETA_WINDOW_CAP);
    // The first five entries were evicted.
    assert_eq!(w.times[0], 5);
    assert_eq!(*w.times.last().unwrap(), ETA_WINDOW_CAP as u64 + 4);
}

#[test]
fn test_eta_projection() {
    let mut w = TimingWindow::new();
    w.push(1000);
    w.push(2000);
    w.push(3000);
    // Mean 2000 ms, four trials left: eight seconds.
    assert_eq!(eta_seconds(&w, 4), 8);
    // No trials left: no time left.
    assert_eq!(eta_seconds(&w, 0), 0);

    // Sub-millisecond mean precision is kept until the final truncation:
    // mean 1.5 ms over 2000 trials projects three seconds, not two.
    let mut w = TimingWindow::new();
    w.push(1);
    w.push(2);
    assert_eq!(eta_seconds(&w, 2000), 3);
}

#[test]
fn test_hms_split() {
    let parts = hms_parts(3725);
    assert_eq!(parts.hours, 1);
    assert_eq!(parts.minutes, 2);
    assert_eq!(parts.seconds, 5);
    let parts = hms_parts(59);
    assert_eq!(parts.hours, 0);
    assert_eq!(parts.minutes, 0);
    assert_eq!(parts.seconds, 59);
}

#[test]
fn test_precision_str() {
    assert_eq!(<Scalar as PrecisionStr>::precision_str(), "f256");
}
