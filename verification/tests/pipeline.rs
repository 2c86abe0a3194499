use glam::Vec3;
use kiddo::immutable::float::kdtree::ImmutableKdTree;
use kiddo::SquaredEuclidean;
use parry3d::math::Point;
use parry3d::transformation;
use rand::Rng;
use rand::SeedableRng;
use rand_chacha::ChaCha8Rng;
use std::f32::consts::PI;
use voronoi_planet::generation::fibonacci::get_epsilon;
use voronoi_planet::generation::lloyd::{max_displacement, LloydProgress};
use voronoi_planet::generation::needs_triangulation;
use voronoi_planet::generation::voronoi::build_vertex_triangle_map;
use voronoi_planet::spatial::{nearest_by_distance, nearest_candidate};
use voronoi_planet::terrain::perlin::{gradient_terms, hash, Axis};
use voronoi_planet::terrain::TerrainThresholds;
use voronoi_planet::{
    generate_mesh, generate_mesh_with_visibility, BasicColorMapper, BasicTerrainType,
    DelaunayResult, LloydOptions, PlanetConfig, PlanetConfigBuilder, PlanetSize, Point3, RawCell,
    Scalar, TerrainSampler, TriangleGeometry, VoronoiCell, VoronoiError, VoronoiPlanet,
};

// ---------------------------------------------------------------------------
// The numeric work round the library, as a program that uses it would do it.
// ---------------------------------------------------------------------------

fn scalar(value: f32) -> Scalar {
    Scalar::from_bits(value.to_bits())
}

fn number(scalar: Scalar) -> f32 {
    f32::from_bits(scalar.to_bits())
}

fn point3(vector: Vec3) -> Point3 {
    Point3::new(scalar(vector.x), scalar(vector.y), scalar(vector.z))
}

fn vec3(point: Point3) -> Vec3 {
    Vec3::new(number(point.x), number(point.y), number(point.z))
}

fn hull_vec3(point: &Point<f32>) -> Vec3 {
    Vec3::new(point.x, point.y, point.z)
}

fn approximate_area<T>(cell: &VoronoiCell<T>) -> f32 {
    if cell.vertices.len() < 3 {
        return 0.0;
    }
    let center = vec3(cell.center);
    let mut area = 0.0;
    for i in 0..cell.vertices.len() {
        let v1 = vec3(cell.vertices[i]);
        let v2 = vec3(cell.vertices[(i + 1) % cell.vertices.len()]);
        area += (v1 - center).cross(v2 - center).length() * 0.5;
    }
    area
}

fn distance_to<T>(cell: &VoronoiCell<T>, other: &VoronoiCell<T>, sphere_radius: f32) -> f32 {
    let a = vec3(cell.center);
    let b = vec3(other.center);
    let cos_angle = (a.dot(b) / (a.length() * b.length())).clamp(-1.0, 1.0);
    sphere_radius * cos_angle.acos()
}

const PHI: f32 = 1.618033988749895;
const JITTER_STRENGTH: f32 = 0.5;

fn generate_sphere_points(count: usize, radius: f32, seed: u32) -> Vec<Point<f32>> {
    if count == 0 {
        return Vec::new();
    }
    let mut rng = ChaCha8Rng::seed_from_u64(seed as u64);
    let epsilon = number(get_epsilon(count));
    let n = count as f32;
    let avg_spacing = (4.0 * PI / n).sqrt();
    let jitter_amount = avg_spacing * JITTER_STRENGTH;
    (0..count)
        .map(|i| {
            let i_f = i as f32;
            let theta = 2.0 * PI * i_f / PHI;
            let cos_phi = 1.0 - 2.0 * (i_f + epsilon) / (n - 1.0 + 2.0 * epsilon);
            let sin_phi = (1.0 - cos_phi * cos_phi).sqrt();
            let base = Vec3::new(sin_phi * theta.cos(), sin_phi * theta.sin(), cos_phi);
            let jitter_theta: f32 = rng.gen_range(0.0..2.0 * PI);
            let jitter_mag: f32 = rng.gen_range(0.0..jitter_amount);
            let up = if base.z.abs() < 0.9 { Vec3::Z } else { Vec3::X };
            let tangent1 = base.cross(up).normalize();
            let tangent2 = base.cross(tangent1).normalize();
            let jittered = base
                + tangent1 * jitter_mag * jitter_theta.cos()
                + tangent2 * jitter_mag * jitter_theta.sin();
            let normalized = jittered.normalize() * radius;
            Point::new(normalized.x, normalized.y, normalized.z)
        })
        .collect()
}

fn try_hull(points: &[Point<f32>]) -> Result<(Vec<Point<f32>>, Vec<[u32; 3]>), VoronoiError> {
    transformation::try_convex_hull(points)
        .map_err(|error| VoronoiError::GenerationFailed(error.to_string()))
}

fn compute_spherical_circumcenter(
    tri_idx: usize,
    vertices: &[Point<f32>],
    triangle_indices: &[[u32; 3]],
    radius: f32,
) -> Vec3 {
    let tri = triangle_indices[tri_idx];
    let v0 = hull_vec3(&vertices[tri[0] as usize]);
    let v1 = hull_vec3(&vertices[tri[1] as usize]);
    let v2 = hull_vec3(&vertices[tri[2] as usize]);
    let edge1 = v1 - v0;
    let edge2 = v2 - v0;
    let normal = edge1.cross(edge2);
    normal.normalize() * radius
}

fn viewing_angle(circumcenter: Vec3, seed_point: Vec3) -> f32 {
    let normal = seed_point.normalize();
    let reference =
        if normal.x.abs() > 0.5 { Vec3::new(0.0, 1.0, 0.0) } else { Vec3::new(1.0, 0.0, 0.0) };
    let tangent_u = reference.cross(normal).normalize();
    let tangent_v = normal.cross(tangent_u).normalize();
    let to_cc = circumcenter - seed_point;
    let u = to_cc.dot(tangent_u);
    let v = to_cc.dot(tangent_v);
    v.atan2(u)
}

fn triangulate(
    points: &[Point<f32>],
    radius: f32,
) -> Result<(DelaunayResult, Vec<TriangleGeometry>), VoronoiError> {
    let (vertices, triangles) = try_hull(points)?;
    let geometry = (0..triangles.len())
        .map(|tri_idx| {
            let circumcenter =
                compute_spherical_circumcenter(tri_idx, &vertices, &triangles, radius);
            let tri = triangles[tri_idx];
            let angle_at = |corner: usize| {
                scalar(viewing_angle(circumcenter, hull_vec3(&vertices[tri[corner] as usize])))
            };
            TriangleGeometry {
                circumcenter: point3(circumcenter),
                angles: [angle_at(0), angle_at(1), angle_at(2)],
            }
        })
        .collect();
    let hull = DelaunayResult {
        vertices: vertices.iter().map(|p| point3(hull_vec3(p))).collect(),
        triangles,
    };
    Ok((hull, geometry))
}

fn generate_cells(points: &[Point<f32>], radius: f32) -> Result<Vec<RawCell>, VoronoiError> {
    let (hull, geometry) = triangulate(points, radius)?;
    voronoi_planet::generation::voronoi::generate_cells(&hull, &geometry)
}

fn compute_new_points(
    vertices: &[Point<f32>],
    vertex_triangle_map: &[Vec<usize>],
    triangle_indices: &[[u32; 3]],
    radius: f32,
) -> (Vec<Point<f32>>, Vec<Scalar>) {
    let mut displacements = Vec::with_capacity(vertices.len());

    let new_points: Vec<Point<f32>> = (0..vertices.len())
        .map(|vertex_idx| {
            let old_pos = &vertices[vertex_idx];
            let adjacent_triangles = &vertex_triangle_map[vertex_idx];

            let circumcenters: Vec<Vec3> = adjacent_triangles
                .iter()
                .map(|&tri_idx| {
                    compute_spherical_circumcenter(tri_idx, vertices, triangle_indices, radius)
                })
                .collect();

            let sum: Vec3 = circumcenters.iter().copied().sum();
            let centroid = sum / circumcenters.len() as f32;

            let normalized = centroid.normalize() * radius;
            let new_point = Point::new(normalized.x, normalized.y, normalized.z);

            let dx = new_point.x - old_pos.x;
            let dy = new_point.y - old_pos.y;
            let dz = new_point.z - old_pos.z;
            displacements.push(scalar((dx * dx + dy * dy + dz * dz).sqrt()));

            new_point
        })
        .collect();

    (new_points, displacements)
}

/// Relaxes the points and reports how many passes ran.
fn relax(
    mut points: Vec<Point<f32>>,
    radius: f32,
    options: LloydOptions,
) -> Result<(Vec<Point<f32>>, LloydProgress), VoronoiError> {
    let threshold = scalar(number(options.convergence_threshold) * radius);
    let mut progress = LloydProgress::new();
    while progress.should_continue(&options) {
        let (vertices, triangle_indices) = try_hull(&points)?;
        let vertex_triangle_map = build_vertex_triangle_map(&triangle_indices, vertices.len());
        let (new_points, displacements) =
            compute_new_points(&vertices, &vertex_triangle_map, &triangle_indices, radius);
        points = new_points;
        progress = progress.after_pass(threshold, max_displacement(&displacements));
    }
    Ok((points, progress))
}

fn lloyd_relaxation_with_options(
    points: Vec<Point<f32>>,
    radius: f32,
    options: LloydOptions,
) -> Vec<Point<f32>> {
    relax(points, radius, options).unwrap().0
}

fn lloyd_relaxation(points: Vec<Point<f32>>, radius: f32, iterations: usize) -> Vec<Point<f32>> {
    lloyd_relaxation_with_options(points, radius, LloydOptions::with_iterations(iterations))
}

fn triangulation_of(
    config: &PlanetConfig,
) -> Result<(DelaunayResult, Vec<TriangleGeometry>), VoronoiError> {
    let cell_count = config.cell_count();
    if !needs_triangulation(cell_count) {
        return Ok((DelaunayResult { vertices: Vec::new(), triangles: Vec::new() }, Vec::new()));
    }
    let radius = number(config.radius());
    let points = generate_sphere_points(cell_count, radius, config.seed);
    let options = LloydOptions {
        max_iterations: config.lloyd_iterations,
        convergence_threshold: config.lloyd_convergence,
    };
    let (points, _) = relax(points, radius, options)?;
    triangulate(&points, radius)
}

#[derive(Debug, Clone, Copy, PartialEq)]
struct PerlinConfig {
    base_frequency: f32,
    octaves: usize,
    persistence: f32,
    lacunarity: f32,
}

impl Default for PerlinConfig {
    fn default() -> Self {
        Self { base_frequency: 0.8, octaves: 6, persistence: 0.5, lacunarity: 2.0 }
    }
}

fn gradient(hash_value: u32, x: f32, y: f32, z: f32) -> f32 {
    let terms = gradient_terms(hash_value);
    let along = |axis: Axis| match axis {
        Axis::X => x,
        Axis::Y => y,
        Axis::Z => z,
    };
    let u = along(terms.first);
    let v = along(terms.second);
    let sign_u = if terms.negate_first { -u } else { u };
    let sign_v = if terms.negate_second { -v } else { v };
    sign_u + sign_v
}

fn fade(t: f32) -> f32 {
    t * t * t * (t * (t * 6.0 - 15.0) + 10.0)
}

fn lerp(a: f32, b: f32, t: f32) -> f32 {
    a + t * (b - a)
}

fn perlin_3d(pos: Vec3, seed: u32) -> f32 {
    let x0 = pos.x.floor() as i32;
    let y0 = pos.y.floor() as i32;
    let z0 = pos.z.floor() as i32;
    let x1 = x0 + 1;
    let y1 = y0 + 1;
    let z1 = z0 + 1;

    let xf = pos.x - pos.x.floor();
    let yf = pos.y - pos.y.floor();
    let zf = pos.z - pos.z.floor();

    let u = fade(xf);
    let v = fade(yf);
    let w = fade(zf);

    let aaa = hash(x0, y0, z0, seed);
    let aba = hash(x0, y1, z0, seed);
    let aab = hash(x0, y0, z1, seed);
    let abb = hash(x0, y1, z1, seed);
    let baa = hash(x1, y0, z0, seed);
    let bba = hash(x1, y1, z0, seed);
    let bab = hash(x1, y0, z1, seed);
    let bbb = hash(x1, y1, z1, seed);

    let g_aaa = gradient(aaa, xf, yf, zf);
    let g_baa = gradient(baa, xf - 1.0, yf, zf);
    let g_aba = gradient(aba, xf, yf - 1.0, zf);
    let g_bba = gradient(bba, xf - 1.0, yf - 1.0, zf);
    let g_aab = gradient(aab, xf, yf, zf - 1.0);
    let g_bab = gradient(bab, xf - 1.0, yf, zf - 1.0);
    let g_abb = gradient(abb, xf, yf - 1.0, zf - 1.0);
    let g_bbb = gradient(bbb, xf - 1.0, yf - 1.0, zf - 1.0);

    let x00 = lerp(g_aaa, g_baa, u);
    let x10 = lerp(g_aba, g_bba, u);
    let x01 = lerp(g_aab, g_bab, u);
    let x11 = lerp(g_abb, g_bbb, u);
    let y0_val = lerp(x00, x10, v);
    let y1_val = lerp(x01, x11, v);

    lerp(y0_val, y1_val, w)
}

fn sample_perlin_3d(position: Vec3, seed: u32, config: &PerlinConfig) -> f32 {
    let mut value = 0.0;
    let mut amplitude = 1.0;
    let mut frequency = config.base_frequency;
    let mut max_value = 0.0;
    for _ in 0..config.octaves {
        let sample = perlin_3d(position * frequency, seed);
        value += sample * amplitude;
        max_value += amplitude;
        frequency *= config.lacunarity;
        amplitude *= config.persistence;
    }
    ((value / max_value) + 1.0) / 2.0
}

fn sample_perlin_fbm(
    position: Vec3,
    seed: u32,
    octaves: usize,
    persistence: f32,
    lacunarity: f32,
) -> f32 {
    let mut total = 0.0;
    let mut amplitude = 1.0;
    let mut frequency = 1.0;
    let mut max_value = 0.0;
    for _ in 0..octaves {
        total += perlin_3d(position * frequency, seed) * amplitude;
        max_value += amplitude;
        amplitude *= persistence;
        frequency *= lacunarity;
    }
    total / max_value
}

/// Continents from warped gradient noise, ice at the poles.
struct PerlinTerrainSampler {
    seed: u32,
    ocean_threshold: f32,
    mountain_threshold: f32,
    ice_cap_latitude: f32,
    beach_band: f32,
}

impl PerlinTerrainSampler {
    fn new(seed: u32) -> Self {
        Self {
            seed,
            ocean_threshold: -0.12,
            mountain_threshold: 0.4,
            ice_cap_latitude: 0.85,
            beach_band: 0.05,
        }
    }

    fn thresholds(&self) -> TerrainThresholds {
        TerrainThresholds {
            ocean: scalar(self.ocean_threshold),
            beach: scalar(self.ocean_threshold + self.beach_band),
            mountain: scalar(self.mountain_threshold),
            ice_cap_latitude: scalar(self.ice_cap_latitude),
        }
    }

    fn classify(&self, position: Vec3, radius: f32) -> BasicTerrainType {
        let thresholds = self.thresholds();
        let latitude = (position.y / radius).abs();
        if thresholds.is_ice_cap(scalar(latitude)) {
            return BasicTerrainType::Ice;
        }
        let sampling_pos = Vec3::new(-position.x, position.y, -position.z);
        let warp_freq = 0.15;
        let warp_strength = 1.75;
        let warp_x =
            sample_perlin_fbm(sampling_pos * warp_freq, self.seed.wrapping_add(1000), 3, 0.5, 2.0);
        let warp_y =
            sample_perlin_fbm(sampling_pos * warp_freq, self.seed.wrapping_add(2000), 3, 0.5, 2.0);
        let warp_z =
            sample_perlin_fbm(sampling_pos * warp_freq, self.seed.wrapping_add(3000), 3, 0.5, 2.0);
        let warped_pos = sampling_pos + Vec3::new(warp_x, warp_y, warp_z) * warp_strength;
        let continent_freq = 0.125;
        let elevation = sample_perlin_fbm(warped_pos * continent_freq, self.seed, 1, 0.5, 2.0);
        thresholds.classify(scalar(elevation))
    }
}

impl TerrainSampler for PerlinTerrainSampler {
    type Output = BasicTerrainType;

    fn sample(&self, position: Point3, radius: Scalar) -> BasicTerrainType {
        self.classify(vec3(position), number(radius))
    }
}

fn generate(config: PlanetConfig) -> Result<VoronoiPlanet<BasicTerrainType>, VoronoiError> {
    let (hull, geometry) = triangulation_of(&config)?;
    let sampler = PerlinTerrainSampler::new(config.terrain_seed);
    VoronoiPlanet::generate_with_sampler(config, &hull, &geometry, &sampler)
}

/// The search index over the centres of a planet.
fn index_of(planet: &VoronoiPlanet<BasicTerrainType>) -> ImmutableKdTree<f32, usize, 3, 32> {
    let centers: Vec<[f32; 3]> = planet.cells().iter().map(|c| vec3(c.center).to_array()).collect();
    ImmutableKdTree::new_from_slice(&centers)
}

fn just_above(distance: f32) -> f32 {
    if distance.is_nan() || distance == f32::INFINITY {
        distance
    } else if distance == 0.0 {
        f32::from_bits(1)
    } else {
        f32::from_bits(distance.to_bits() + 1)
    }
}

fn find_cell_at(index: &ImmutableKdTree<f32, usize, 3, 32>, position: Vec3) -> usize {
    let query = position.to_array();
    let smallest = index.nearest_n::<SquaredEuclidean>(&query, 1)[0].distance;
    let within = index.within_unsorted::<SquaredEuclidean>(&query, just_above(smallest));
    let candidates: Vec<(usize, Scalar)> =
        within.iter().map(|neighbour| (neighbour.item, scalar(neighbour.distance))).collect();
    nearest_candidate(&candidates).unwrap()
}

/// The nearest cell by the plain walk over all centres.
fn find_cell_by_walk(planet: &VoronoiPlanet<BasicTerrainType>, position: Vec3) -> usize {
    let distances: Vec<Scalar> = planet
        .cells()
        .iter()
        .map(|c| scalar(vec3(c.center).distance_squared(position)))
        .collect();
    nearest_by_distance(&distances).unwrap()
}

fn tiny(seed: u32) -> PlanetConfig {
    PlanetConfigBuilder::new().seed(seed).planet_size(PlanetSize::Tiny).build().unwrap()
}

fn small_planet(seed: u32, cell_count: usize) -> VoronoiPlanet<BasicTerrainType> {
    let config = PlanetConfigBuilder::new()
        .seed(seed)
        .planet_size(PlanetSize::Custom { cell_count, radius: scalar(10.0) })
        .lloyd_iterations(2)
        .unwrap()
        .build()
        .unwrap();
    generate(config).unwrap()
}

// ---------------------------------------------------------------------------
// Triangulation and point placement.
// ---------------------------------------------------------------------------

#[test]
fn test_compute_delaunay() {
    let points = vec![
        Point::new(1.0, 0.0, 0.0),
        Point::new(0.0, 1.0, 0.0),
        Point::new(0.0, 0.0, 1.0),
        Point::new(-1.0, -1.0, -1.0),
    ];

    let (result, geometry) = triangulate(&points, 1.0).unwrap();

    assert_eq!(result.vertices.len(), 4);
    assert!(result.triangles.len() >= 4);
    assert!(result.is_well_formed());
    assert_eq!(geometry.len(), result.triangles.len());
}

#[test]
fn test_fibonacci_point_count() {
    for count in [10, 100, 1000, 5000] {
        let points = generate_sphere_points(count, 10.0, 42);
        assert_eq!(points.len(), count);
    }
}

#[test]
fn test_fibonacci_empty() {
    let points = generate_sphere_points(0, 10.0, 42);
    assert!(points.is_empty());
}

#[test]
fn test_fibonacci_points_on_sphere() {
    let radius = 15.0;
    let points = generate_sphere_points(500, radius, 42);

    for point in &points {
        let distance = (point.x * point.x + point.y * point.y + point.z * point.z).sqrt();
        assert!(
            (distance - radius).abs() < 0.0001,
            "Point distance {} should be {} (diff: {})",
            distance,
            radius,
            (distance - radius).abs()
        );
    }
}

#[test]
fn test_fibonacci_determinism() {
    let points1 = generate_sphere_points(100, 10.0, 42);
    let points2 = generate_sphere_points(100, 10.0, 42);

    for (first, second) in points1.iter().zip(points2.iter()) {
        assert!((first.x - second.x).abs() < 0.0001);
        assert!((first.y - second.y).abs() < 0.0001);
        assert!((first.z - second.z).abs() < 0.0001);
    }
}

#[test]
fn test_fibonacci_different_seeds() {
    let points1 = generate_sphere_points(100, 10.0, 12345);
    let points2 = generate_sphere_points(100, 10.0, 67890);

    let mut any_different = false;
    for (first, second) in points1.iter().zip(points2.iter()) {
        if (first.x - second.x).abs() > 0.01 {
            any_different = true;
            break;
        }
    }
    assert!(any_different, "Different seeds should produce different points");
}

#[test]
fn test_fibonacci_has_poles() {
    let points = generate_sphere_points(1000, 10.0, 42);

    let first = &points[0];
    assert!(first.z > 9.0, "First point z={} should be near north pole", first.z);

    let last = &points[999];
    assert!(last.z < -9.0, "Last point z={} should be near south pole", last.z);
}

// ---------------------------------------------------------------------------
// Relaxation.
// ---------------------------------------------------------------------------

#[test]
fn test_lloyd_relaxation() {
    let points = generate_sphere_points(100, 10.0, 42);
    let relaxed = lloyd_relaxation(points, 10.0, 3);

    assert_eq!(relaxed.len(), 100);

    for point in &relaxed {
        let distance = (point.x * point.x + point.y * point.y + point.z * point.z).sqrt();
        assert!((distance - 10.0).abs() < 0.01);
    }
}

#[test]
fn test_lloyd_relaxation_determinism() {
    let points1 = generate_sphere_points(50, 10.0, 12345);
    let points2 = generate_sphere_points(50, 10.0, 12345);

    let relaxed1 = lloyd_relaxation(points1, 10.0, 2);
    let relaxed2 = lloyd_relaxation(points2, 10.0, 2);

    assert_eq!(relaxed1.len(), relaxed2.len());
    for (first, second) in relaxed1.iter().zip(relaxed2.iter()) {
        assert!((first.x - second.x).abs() < 0.0001);
        assert!((first.y - second.y).abs() < 0.0001);
        assert!((first.z - second.z).abs() < 0.0001);
    }
}

#[test]
fn test_lloyd_relaxation_with_options() {
    let points = generate_sphere_points(100, 10.0, 42);
    let options = LloydOptions { max_iterations: 10, convergence_threshold: scalar(0.0001) };
    let relaxed = lloyd_relaxation_with_options(points, 10.0, options);

    assert_eq!(relaxed.len(), 100);

    for point in &relaxed {
        let distance = (point.x * point.x + point.y * point.y + point.z * point.z).sqrt();
        assert!((distance - 10.0).abs() < 0.01);
    }
}

#[test]
fn test_lloyd_no_convergence_threshold() {
    let points = generate_sphere_points(50, 10.0, 42);
    let options = LloydOptions { max_iterations: 3, convergence_threshold: scalar(0.0) };
    let relaxed = lloyd_relaxation_with_options(points, 10.0, options);

    assert_eq!(relaxed.len(), 50);
}

#[test]
fn without_a_threshold_every_pass_runs() {
    let points = generate_sphere_points(200, 10.0, 7);
    let options = LloydOptions { max_iterations: 4, convergence_threshold: scalar(0.0) };
    let (_, progress) = relax(points, 10.0, options).unwrap();
    assert_eq!(progress.iterations_run, 4);
    assert!(!progress.converged);
}

#[test]
fn a_generous_threshold_stops_after_the_first_pass() {
    let points = generate_sphere_points(200, 10.0, 7);
    let options = LloydOptions { max_iterations: 10, convergence_threshold: scalar(10.0) };
    let (relaxed, progress) = relax(points, 10.0, options).unwrap();
    assert_eq!(progress.iterations_run, 1);
    assert!(progress.converged);
    assert_eq!(relaxed.len(), 200);
}

#[test]
fn no_iterations_leave_the_points_alone() {
    let points = generate_sphere_points(60, 10.0, 3);
    let options = LloydOptions { max_iterations: 0, convergence_threshold: scalar(0.01) };
    let (relaxed, progress) = relax(points.clone(), 10.0, options).unwrap();
    assert_eq!(progress.iterations_run, 0);
    assert_eq!(relaxed, points);
}

// ---------------------------------------------------------------------------
// Cells.
// ---------------------------------------------------------------------------

#[test]
fn test_generate_cells() {
    let points = generate_sphere_points(100, 10.0, 42);
    let cells = generate_cells(&points, 10.0).unwrap();

    assert_eq!(cells.len(), 100);

    for cell in &cells {
        assert!(cell.vertices.len() >= 3, "Cell should have at least 3 vertices");
        assert!(cell.neighbors.len() > 0, "Cell should have neighbors");

        let distance = vec3(cell.center).length();
        assert!((distance - 10.0).abs() < 0.01);

        for vertex in &cell.vertices {
            let vertex_distance = vec3(*vertex).length();
            assert!((vertex_distance - 10.0).abs() < 0.01);
        }
    }
}

#[test]
fn test_neighbor_symmetry() {
    let points = generate_sphere_points(50, 10.0, 12345);
    let cells = generate_cells(&points, 10.0).unwrap();

    for cell in &cells {
        for &neighbor_id in &cell.neighbors {
            let neighbor = &cells[neighbor_id];
            assert!(
                neighbor.neighbors.contains(&cell.id),
                "Neighbor relationship should be symmetric"
            );
        }
    }
}

#[test]
fn boundaries_run_counter_clockwise_seen_from_outside() {
    let points = generate_sphere_points(200, 10.0, 9);
    let cells = generate_cells(&points, 10.0).unwrap();
    for cell in &cells {
        let center = vec3(cell.center);
        let count = cell.vertices.len();
        let mut turning = 0.0;
        for i in 0..count {
            let a = vec3(cell.vertices[i]) - center;
            let b = vec3(cell.vertices[(i + 1) % count]) - center;
            turning += a.cross(b).dot(center.normalize());
        }
        assert!(turning > 0.0);
    }
}

#[test]
fn a_boundary_has_one_corner_for_each_neighbor() {
    let points = generate_sphere_points(300, 10.0, 11);
    let cells = generate_cells(&points, 10.0).unwrap();
    for cell in &cells {
        assert_eq!(cell.vertices.len(), cell.neighbors.len());
    }
    // Euler: a closed triangulation of n vertices has 3n - 6 edges.
    let degree_sum: usize = cells.iter().map(|c| c.neighbors.len()).sum();
    assert_eq!(degree_sum, 2 * (3 * cells.len() - 6));
}

#[test]
fn three_points_make_no_cells() {
    let points = generate_sphere_points(3, 10.0, 42);
    let result = generate_cells(&points, 10.0);
    assert!(matches!(result, Err(VoronoiError::GenerationFailed(_))));
}

#[test]
fn points_on_one_line_make_no_cells() {
    let points: Vec<Point<f32>> =
        (0..8).map(|i| Point::new(i as f32 - 3.5, 0.0, 0.0)).collect();
    let result = generate_cells(&points, 10.0);
    assert!(matches!(result, Err(VoronoiError::GenerationFailed(_))));
}

#[test]
fn too_few_points_make_no_cells() {
    for count in 0..3 {
        let points = generate_sphere_points(count, 10.0, 42);
        let result = generate_cells(&points, 10.0);
        assert!(matches!(result, Err(VoronoiError::GenerationFailed(_))));
    }
}

// ---------------------------------------------------------------------------
// Planets.
// ---------------------------------------------------------------------------

#[test]
fn test_planet_generation() {
    let config = PlanetConfigBuilder::new()
        .seed(42)
        .planet_size(PlanetSize::Tiny)
        .lloyd_iterations(2)
        .unwrap()
        .build()
        .unwrap();

    let planet = generate(config).unwrap();

    assert!(planet.cell_count() > 0);
    assert_eq!(number(planet.radius()), number(config.radius()));
}

#[test]
fn test_get_cell() {
    let planet = generate(tiny(42)).unwrap();

    assert!(planet.get_cell(0).is_some());
    assert!(planet.get_cell(planet.cell_count()).is_none());
}

#[test]
fn test_get_neighbors() {
    let planet = generate(PlanetConfig::default()).unwrap();

    let neighbors = planet.get_neighbors(0);
    assert!(!neighbors.is_empty());
    assert!(neighbors.len() >= 3);
    assert!(neighbors.len() <= 10);
}

#[test]
fn test_find_cell_at() {
    let planet = generate(tiny(42)).unwrap();
    let index = index_of(&planet);

    let cell_center = vec3(planet.get_cell(0).unwrap().center);
    let found_cell_id = find_cell_at(&index, cell_center);

    assert_eq!(found_cell_id, 0);
    assert_eq!(find_cell_by_walk(&planet, cell_center), 0);
}

#[test]
fn test_find_cells_within_radius() {
    let planet = generate(PlanetConfig::default()).unwrap();

    let cells_r0 = planet.find_cells_within_radius(0, 0);
    assert_eq!(cells_r0.len(), 1);
    assert!(cells_r0.contains(&0));

    let cells_r1 = planet.find_cells_within_radius(0, 1);
    let neighbors = planet.get_neighbors(0);
    assert_eq!(cells_r1.len(), 1 + neighbors.len());

    let cells_r2 = planet.find_cells_within_radius(0, 2);
    assert!(cells_r2.len() > cells_r1.len());
}

#[test]
fn test_invalid_cell_id() {
    let planet = generate(PlanetConfig::default()).unwrap();

    let neighbors = planet.get_neighbors(999999);
    assert!(neighbors.is_empty());

    let cells = planet.find_cells_within_radius(999999, 5);
    assert!(cells.is_empty());
}

#[test]
fn five_thousand_cells_with_three_to_ten_neighbors() {
    let config = PlanetConfigBuilder::new()
        .seed(42)
        .planet_size(PlanetSize::Custom { cell_count: 5000, radius: scalar(11.3) })
        .lloyd_iterations(5)
        .unwrap()
        .lloyd_convergence(scalar(0.01))
        .unwrap()
        .build()
        .unwrap();
    let planet = generate(config).unwrap();
    assert_eq!(planet.cell_count(), 5000);
    for cell in planet.cells() {
        assert!(cell.neighbors.len() >= 3);
        assert!(cell.neighbors.len() <= 10);
    }

    let again = generate(config).unwrap();
    assert_eq!(again.cell_count(), 5000);
    for (a, b) in planet.cells().iter().zip(again.cells().iter()) {
        assert_eq!(a.id, b.id);
        assert_eq!(a.center, b.center);
        assert_eq!(a.neighbors, b.neighbors);
        assert_eq!(a.vertices, b.vertices);
    }
}

#[test]
fn every_configured_cell_is_built() {
    for (seed, cell_count) in [(1, 4), (2, 12), (3, 100), (4, 777), (5, 2000)] {
        let planet = small_planet(seed, cell_count);
        assert_eq!(planet.cell_count(), cell_count);
    }
}

#[test]
fn centers_and_corners_lie_on_the_sphere() {
    let planet = small_planet(21, 1500);
    let radius = number(planet.radius());
    for cell in planet.cells() {
        assert!((vec3(cell.center).length() - radius).abs() <= 0.01 * radius);
        for corner in &cell.vertices {
            assert!((vec3(*corner).length() - radius).abs() <= 0.01 * radius);
        }
    }
}

#[test]
fn neighborhood_is_mutual_on_a_planet() {
    let planet = small_planet(8, 1200);
    for cell in planet.cells() {
        for &other in &cell.neighbors {
            assert!(planet.get_neighbors(other).contains(&cell.id));
        }
    }
}

#[test]
fn the_same_configuration_gives_the_same_planet() {
    let first = small_planet(77, 600);
    let second = small_planet(77, 600);
    assert_eq!(first.cell_count(), second.cell_count());
    for (a, b) in first.cells().iter().zip(second.cells().iter()) {
        assert_eq!(a.id, b.id);
        assert!((vec3(a.center) - vec3(b.center)).length() < 1.0e-4);
        assert_eq!(a.neighbors, b.neighbors);
        assert_eq!(a.vertices.len(), b.vertices.len());
    }
}

#[test]
fn every_center_lies_in_its_own_cell() {
    let planet = small_planet(5, 800);
    let index = index_of(&planet);
    for cell in planet.cells() {
        let center = vec3(cell.center);
        assert_eq!(find_cell_at(&index, center), cell.id);
        assert_eq!(find_cell_by_walk(&planet, center), cell.id);
    }
}

#[test]
fn the_index_and_the_walk_find_the_same_cell() {
    let planet = small_planet(6, 500);
    let index = index_of(&planet);
    let queries = generate_sphere_points(300, 10.0, 99);
    for query in &queries {
        let position = hull_vec3(query);
        assert_eq!(find_cell_at(&index, position), find_cell_by_walk(&planet, position));
    }
    // Between two centres, and far from the sphere.
    for cell in planet.cells().iter().take(50) {
        let other = planet.get_cell(cell.neighbors[0]).unwrap();
        let between = (vec3(cell.center) + vec3(other.center)) * 0.5;
        assert_eq!(find_cell_at(&index, between), find_cell_by_walk(&planet, between));
    }
    for position in [Vec3::ZERO, Vec3::new(1000.0, 0.0, 0.0), Vec3::new(0.0, -1.0e-3, 0.0)] {
        assert_eq!(find_cell_at(&index, position), find_cell_by_walk(&planet, position));
    }
}

#[test]
fn hops_reach_further_with_each_step() {
    let planet = small_planet(13, 400);
    let mut before = 0;
    for hops in 0..6 {
        let found = planet.find_cells_within_radius(17, hops);
        assert!(found.len() > before);
        let mut unique = found.clone();
        unique.sort();
        unique.dedup();
        assert_eq!(unique.len(), found.len());
        before = found.len();
    }
    assert_eq!(planet.find_cells_within_radius(17, 400).len(), 400);
}

#[test]
fn no_cells_without_configured_cells() {
    let config = PlanetConfigBuilder::new()
        .seed(42)
        .planet_size(PlanetSize::Custom { cell_count: 0, radius: scalar(10.0) })
        .build()
        .unwrap();
    let planet = generate(config).unwrap();
    assert_eq!(planet.cell_count(), 0);
}

#[test]
fn three_configured_cells_fail() {
    let config = PlanetConfigBuilder::new()
        .seed(42)
        .planet_size(PlanetSize::Custom { cell_count: 3, radius: scalar(10.0) })
        .build()
        .unwrap();
    assert!(matches!(generate(config), Err(VoronoiError::GenerationFailed(_))));
}

// ---------------------------------------------------------------------------
// Meshes.
// ---------------------------------------------------------------------------

#[test]
fn test_generate_mesh() {
    let planet = generate(tiny(42)).unwrap();
    let color_mapper = BasicColorMapper;
    let mesh = generate_mesh(&planet, &color_mapper);

    assert!(!mesh.is_empty());
    assert!(mesh.vertex_count() > 0);
    assert!(mesh.triangle_count() > 0);
    assert_eq!(mesh.positions.len(), mesh.normals.len());
    assert_eq!(mesh.positions.len(), mesh.colors.len());
    assert_eq!(mesh.indices.len() % 3, 0);
}

#[test]
fn test_mesh_with_fog_of_war() {
    let planet = generate(tiny(42)).unwrap();
    let color_mapper = BasicColorMapper;

    let visible: Vec<usize> = (0..100).collect();
    let mesh = generate_mesh_with_visibility(
        &planet,
        &color_mapper,
        Some(&visible),
        [scalar(0.0), scalar(0.0), scalar(0.0), scalar(1.0)],
    );

    assert!(!mesh.is_empty());
    assert!(mesh.vertex_count() > 0);
}

#[test]
fn test_mesh_consistency() {
    let planet = generate(tiny(42)).unwrap();
    let color_mapper = BasicColorMapper;

    let mesh1 = generate_mesh(&planet, &color_mapper);
    let mesh2 = generate_mesh(&planet, &color_mapper);

    assert_eq!(mesh1.vertex_count(), mesh2.vertex_count());
    assert_eq!(mesh1.triangle_count(), mesh2.triangle_count());
}

// ---------------------------------------------------------------------------
// Terrain.
// ---------------------------------------------------------------------------

#[test]
fn test_terrain_classification() {
    let sampler = PerlinTerrainSampler::new(42);
    let radius = 1.0;

    let positions = vec![
        Vec3::new(1.0, 0.0, 0.0),
        Vec3::new(0.0, 1.0, 0.0),
        Vec3::new(0.0, -1.0, 0.0),
        Vec3::new(0.577, 0.577, 0.577),
    ];

    for pos in positions {
        let terrain = sampler.sample(point3(pos), scalar(radius));
        match terrain {
            BasicTerrainType::Ocean
            | BasicTerrainType::Beach
            | BasicTerrainType::Land
            | BasicTerrainType::Mountain
            | BasicTerrainType::Ice => {}
        }
    }
}

#[test]
fn test_polar_ice() {
    let sampler = PerlinTerrainSampler::new(42);
    let radius = 1.0;

    let north_pole = Vec3::new(0.0, 1.0, 0.0);
    let terrain = sampler.sample(point3(north_pole), scalar(radius));
    assert_eq!(terrain, BasicTerrainType::Ice);

    let south_pole = Vec3::new(0.0, -1.0, 0.0);
    let terrain = sampler.sample(point3(south_pole), scalar(radius));
    assert_eq!(terrain, BasicTerrainType::Ice);
}

#[test]
fn test_terrain_determinism() {
    let sampler = PerlinTerrainSampler::new(123);
    let radius = 1.0;
    let position = Vec3::new(0.5, 0.5, 0.5);

    let terrain1 = sampler.sample(point3(position), scalar(radius));
    let terrain2 = sampler.sample(point3(position), scalar(radius));

    assert_eq!(terrain1, terrain2, "Same position should produce same terrain");
}

#[test]
fn test_different_seeds_terrain() {
    let sampler1 = PerlinTerrainSampler::new(42);
    let sampler2 = PerlinTerrainSampler::new(999);
    let radius = 1.0;
    let position = Vec3::new(0.5, 0.3, 0.4);

    let terrain1 = sampler1.sample(point3(position), scalar(radius));
    let terrain2 = sampler2.sample(point3(position), scalar(radius));

    let _ = (terrain1, terrain2);
}

#[test]
fn test_terrain_distribution() {
    let planet = generate(tiny(42)).unwrap();

    let mut counts = std::collections::HashMap::new();
    for cell in planet.cells() {
        *counts.entry(cell.terrain).or_insert(0) += 1;
    }

    assert!(counts.len() > 1, "Should have varied terrain");

    let water_count: usize = counts.get(&BasicTerrainType::Ocean).copied().unwrap_or(0);
    let land_count: usize = counts.values().sum::<usize>() - water_count;

    assert!(water_count > 0, "Should have some ocean");
    assert!(land_count > 0, "Should have some land");
}

#[test]
fn test_determinism() {
    let config = PerlinConfig::default();
    let position = Vec3::new(0.5, 0.7, 0.3);
    let seed = 42;

    let value1 = sample_perlin_3d(position, seed, &config);
    let value2 = sample_perlin_3d(position, seed, &config);

    assert_eq!(value1, value2, "Same seed and position must produce identical results");
}

#[test]
fn test_range() {
    let config = PerlinConfig::default();
    let seed = 12345;

    let test_positions = vec![
        Vec3::new(1.0, 0.0, 0.0),
        Vec3::new(0.0, 1.0, 0.0),
        Vec3::new(0.0, 0.0, 1.0),
        Vec3::new(0.577, 0.577, 0.577),
        Vec3::new(-0.5, 0.5, 0.707),
    ];

    for position in test_positions {
        let value = sample_perlin_3d(position, seed, &config);
        assert!(
            value >= 0.0 && value <= 1.0,
            "Value {} at position {:?} is outside [0.0, 1.0] range",
            value,
            position
        );
    }
}

#[test]
fn test_different_seeds() {
    let config = PerlinConfig::default();
    let position = Vec3::new(0.5, 0.5, 0.5);

    let value1 = sample_perlin_3d(position, 42, &config);
    let value2 = sample_perlin_3d(position, 999, &config);

    assert_ne!(value1, value2, "Different seeds should produce different values");
}

#[test]
fn test_perlin_core() {
    let seed = 42;

    let value = perlin_3d(Vec3::new(0.0, 0.0, 0.0), seed);
    assert!(
        value >= -1.0 && value <= 1.0,
        "Raw Perlin should be in [-1, 1] range, got {}",
        value
    );

    let pos = Vec3::new(1.5, 2.3, 0.7);
    let v1 = perlin_3d(pos, seed);
    let v2 = perlin_3d(pos, seed);
    assert_eq!(v1, v2, "Raw Perlin must be deterministic");
}

#[test]
fn test_fbm_helper() {
    let position = Vec3::new(0.5, 0.5, 0.5);
    let seed = 123;

    let value = sample_perlin_fbm(position, seed, 4, 0.5, 2.0);

    assert!(value >= -1.5 && value <= 1.5, "FBM value {} is outside reasonable range", value);
}

#[test]
fn noise_vanishes_on_the_lattice() {
    for seed in [0, 42, 999] {
        for x in -3..4 {
            for y in -3..4 {
                let value = perlin_3d(Vec3::new(x as f32, y as f32, 2.0), seed);
                assert_eq!(value, 0.0);
            }
        }
    }
}

// ---------------------------------------------------------------------------
// Measures of a cell.
// ---------------------------------------------------------------------------

#[test]
fn test_approximate_area() {
    let cell = VoronoiCell::new(
        0,
        point3(Vec3::new(10.0, 0.0, 0.0)),
        BasicTerrainType::Ocean,
        vec![],
        vec![
            point3(Vec3::new(10.0, 1.0, 0.0)),
            point3(Vec3::new(10.0, 0.0, 1.0)),
            point3(Vec3::new(10.0, -1.0, 0.0)),
            point3(Vec3::new(10.0, 0.0, -1.0)),
        ],
    );

    let area = approximate_area(&cell);
    assert!(area > 0.0);
    assert!(area < 10.0);
}

#[test]
fn test_distance_to() {
    let cell1 = VoronoiCell::new(
        0,
        point3(Vec3::new(10.0, 0.0, 0.0)),
        BasicTerrainType::Ocean,
        vec![],
        vec![],
    );

    let cell2 = VoronoiCell::new(
        1,
        point3(Vec3::new(0.0, 10.0, 0.0)),
        BasicTerrainType::Land,
        vec![],
        vec![],
    );

    let distance = distance_to(&cell1, &cell2, 10.0);
    let expected = 10.0 * std::f32::consts::FRAC_PI_2;
    assert!((distance - expected).abs() < 0.01);
}

#[test]
fn the_areas_of_the_cells_cover_the_sphere() {
    let planet = small_planet(31, 2000);
    let total: f32 = planet.cells().iter().map(approximate_area).sum();
    let sphere = 4.0 * PI * 10.0 * 10.0;
    assert!((total - sphere).abs() < 0.02 * sphere);
}
