use rmpc_theme_gen::cluster::build_clusters;
use rmpc_theme_gen::kmeans::{run_kmeans, KMeansConfig};
use rmpc_theme_gen::lab::Rgb8;
use rmpc_theme_gen::space::{point_from_rgb8, ColorSpace, Point3};

fn config(k: usize, seed: u64) -> KMeansConfig {
    KMeansConfig { k, max_iters: 40, tol_milli: 1, seed, warm_start: None, mini_batch: None }
}

fn two_blob_data() -> Vec<Point3> {
    let mut data = Vec::new();
    for i in 0..20i64 {
        data.push(Point3 { x: 1000 + i, y: 1000, z: 1000 });
    }
    for i in 0..10i64 {
        data.push(Point3 { x: 900_000 + i, y: 900_000, z: 900_000 });
    }
    data
}

#[test]
fn kmeans_counts_sum_to_dataset_size() {
    let data = two_blob_data();
    for k in 1..=5usize {
        let res = run_kmeans(&data, &config(k, 7));
        assert_eq!(res.centroids.len(), k);
        assert_eq!(res.counts.len(), k);
        let total: usize = res.counts.iter().sum();
        assert_eq!(total, data.len());
        let nonempty = res.counts.iter().filter(|c| **c > 0).count();
        assert!(nonempty >= 1 && nonempty <= k);
        assert!(res.iterations >= 1 && res.iterations <= 40);
    }
}

#[test]
fn kmeans_separates_two_blobs() {
    let data = two_blob_data();
    let res = run_kmeans(&data, &config(2, 1));
    let mut counts = res.counts.clone();
    counts.sort();
    assert_eq!(counts, vec![10, 20]);
}

#[test]
fn kmeans_deterministic_for_fixed_seed() {
    let data = two_blob_data();
    let a = run_kmeans(&data, &config(3, 42));
    let b = run_kmeans(&data, &config(3, 42));
    assert_eq!(a.centroids, b.centroids);
    assert_eq!(a.counts, b.counts);
    assert_eq!(a.iterations, b.iterations);
}

#[test]
fn kmeans_honors_warm_start() {
    let data = two_blob_data();
    let warm = vec![
        Point3 { x: 1000, y: 1000, z: 1000 },
        Point3 { x: 900_000, y: 900_000, z: 900_000 },
    ];
    let cfg = KMeansConfig {
        k: 2,
        max_iters: 40,
        tol_milli: 1,
        seed: 5,
        warm_start: Some(warm),
        mini_batch: None,
    };
    let res = run_kmeans(&data, &cfg);
    let mut counts = res.counts.clone();
    counts.sort();
    assert_eq!(counts, vec![10, 20]);
}

#[test]
fn kmeans_mini_batch_counts_full_dataset() {
    let data = two_blob_data();
    let cfg = KMeansConfig {
        k: 2,
        max_iters: 40,
        tol_milli: 1,
        seed: 5,
        warm_start: None,
        mini_batch: Some(15),
    };
    let res = run_kmeans(&data, &cfg);
    let total: usize = res.counts.iter().sum();
    assert_eq!(total, data.len());
}

#[test]
fn builder_drops_empty_sorts_desc_and_keeps_share() {
    let white = point_from_rgb8(ColorSpace::Lab, Rgb8 { r: 240, g: 240, b: 240 });
    let red = point_from_rgb8(ColorSpace::Lab, Rgb8 { r: 200, g: 30, b: 30 });
    let stray = point_from_rgb8(ColorSpace::Lab, Rgb8 { r: 0, g: 0, b: 255 });
    let cents = vec![red, white, stray];
    let counts = vec![100usize, 900usize, 0usize];
    let clusters = build_clusters(ColorSpace::Lab, &cents, &counts, 1000);
    assert_eq!(clusters.len(), 2);
    assert_eq!(clusters[0].count, 900);
    assert_eq!(clusters[1].count, 100);
    assert_eq!(clusters[0].share_ppm, 900_000);
    assert_eq!(clusters[1].share_ppm, 100_000);
    assert_eq!(clusters[0].rgb, Rgb8 { r: 240, g: 240, b: 240 });
}

#[test]
fn builder_sort_is_stable_on_ties() {
    let a = point_from_rgb8(ColorSpace::Rgb, Rgb8 { r: 10, g: 10, b: 10 });
    let b = point_from_rgb8(ColorSpace::Rgb, Rgb8 { r: 250, g: 250, b: 250 });
    let cents = vec![a, b];
    let counts = vec![50usize, 50usize];
    let clusters = build_clusters(ColorSpace::Rgb, &cents, &counts, 100);
    assert_eq!(clusters.len(), 2);
    assert_eq!(clusters[0].rgb, Rgb8 { r: 10, g: 10, b: 10 });
    assert_eq!(clusters[1].rgb, Rgb8 { r: 250, g: 250, b: 250 });
}
