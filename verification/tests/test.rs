//! End-to-end scenes. Each scene is drawn twice: by the library, with the
//! barycentric arithmetic done here in single precision, and by a plain
//! pixel-by-pixel loop over the same arithmetic, in floating point
//! throughout. The two images must agree byte for byte.

use cgmath::{ortho, perspective, Deg, Euler, Matrix4, Quaternion, Vector4};
use genmesh::generators;
use genmesh::{MapToVertices, Quad, Triangle, Triangulate};
use rusterize::f32x4::f32x4;
use rusterize::f32x8::{f32x8x8, f32x8x8_vec3};
use rusterize::{Barycentric, Flat, Footprint, Frame, Rgba};

const SIZE: u32 = 512;

/// The constants of one triangle's barycentric field, and its depth at the
/// three vertices.
#[derive(Clone, Copy)]
struct Field {
    v0: [f32; 2],
    v1: [f32; 2],
    base: [f32; 2],
    inv_denom: f32,
    z: [f32; 3],
}

fn dot(a: [f32; 2], b: [f32; 2]) -> f32 {
    a[0] * b[0] + a[1] * b[1]
}

impl Field {
    fn new(clip: &[[f32; 3]; 3]) -> Field {
        let v0 = [clip[1][0] - clip[0][0], clip[1][1] - clip[0][1]];
        let v1 = [clip[2][0] - clip[0][0], clip[2][1] - clip[0][1]];
        let d00 = dot(v0, v0);
        let d01 = dot(v0, v1);
        let d11 = dot(v1, v1);
        Field {
            v0,
            v1,
            base: [clip[0][0], clip[0][1]],
            inv_denom: 1. / (d00 * d11 - d01 * d01),
            z: [clip[0][2], clip[1][2], clip[2][2]],
        }
    }

    fn weights(&self, p: [f32; 2]) -> [f32; 3] {
        let v2 = [p[0] - self.base[0], p[1] - self.base[1]];
        let d00 = dot(self.v0, self.v0);
        let d01 = dot(self.v0, self.v1);
        let d02 = dot(self.v0, v2);
        let d11 = dot(self.v1, self.v1);
        let d12 = dot(self.v1, v2);
        let u = (d11 * d02 - d01 * d12) * self.inv_denom;
        let v = (d00 * d12 - d01 * d02) * self.inv_denom;
        [1. - u - v, u, v]
    }

    fn depth(&self, w: [f32; 3]) -> f32 {
        w[0] * self.z[0] + w[1] * self.z[1] + w[2] * self.z[2]
    }
}

/// The point of the picture plane that the centre of a pixel samples.
fn point(px: u32, py: u32, width: u32, height: u32) -> [f32; 2] {
    let wh = width as f32 / 2.;
    let hh = height as f32 / 2.;
    [(px as f32 - wh) / wh, (py as f32 - hh) / hh]
}

fn divide(pos: &[f32; 4]) -> [f32; 3] {
    [pos[0] / pos[3], pos[1] / pos[3], pos[2] / pos[3]]
}

fn normal_z(clip: &[[f32; 3]; 3]) -> f32 {
    let e0 = [clip[2][0] - clip[0][0], clip[2][1] - clip[0][1]];
    let e1 = [clip[2][0] - clip[1][0], clip[2][1] - clip[1][1]];
    e1[0] * e0[1] - e1[1] * e0[0]
}

fn footprint(clip: &[[f32; 3]; 3], width: u32, height: u32) -> Footprint {
    let wh = width as f32 / 2.;
    let hh = height as f32 / 2.;
    let xs = [clip[0][0] * wh + wh, clip[1][0] * wh + wh, clip[2][0] * wh + wh];
    let ys = [clip[0][1] * hh + hh, clip[1][1] * hh + hh, clip[2][1] * hh + hh];
    Footprint {
        normal_z: normal_z(clip).to_bits(),
        min_x: xs[0].floor().min(xs[1].floor().min(xs[2].floor())) as i32,
        max_x: xs[0].ceil().max(xs[1].ceil().max(xs[2].ceil())) as i32,
        min_y: ys[0].floor().min(ys[1].floor().min(ys[2].floor())) as i32,
        max_y: ys[0].ceil().max(ys[1].ceil().max(ys[2].ceil())) as i32,
    }
}

/// The samples of one triangle over the tile `(ix, iy)`.
fn sample(field: &Field, ix: usize, iy: usize, width: u32, height: u32) -> Barycentric {
    let mut corner = [[f32x4(0, 0, 0, 0); 3]; 16];
    let mut weight = [f32x8x8_vec3([f32x8x8([0; 64]); 3]); 16];
    let mut depth = [f32x8x8([0; 64]); 16];
    for g in 0..16 {
        let x = (ix * 32 + (g % 4) * 8) as u32;
        let y = (iy * 32 + (g / 4) * 8) as u32;
        let c = [
            field.weights(point(x, y, width, height)),
            field.weights(point(x + 7, y, width, height)),
            field.weights(point(x, y + 7, width, height)),
            field.weights(point(x + 7, y + 7, width, height)),
        ];
        for a in 0..3 {
            corner[g][a] =
                f32x4(c[0][a].to_bits(), c[1][a].to_bits(), c[2][a].to_bits(), c[3][a].to_bits());
        }
        for i in 0..64 {
            let w = field.weights(point(x + (i % 8) as u32, y + (i / 8) as u32, width, height));
            for a in 0..3 {
                weight[g].0[a].0[i] = w[a].to_bits();
            }
            depth[g].0[i] = field.depth(w).to_bits();
        }
    }
    Barycentric::new(corner, weight, depth)
}

/// Whether the group whose first pixel is `(x, y)` lies wholly outside one
/// edge of the triangle, judged at the centres of its four corner pixels.
fn skipped(field: &Field, x: u32, y: u32, width: u32, height: u32) -> bool {
    let c = [
        field.weights(point(x, y, width, height)),
        field.weights(point(x + 7, y, width, height)),
        field.weights(point(x, y + 7, width, height)),
        field.weights(point(x + 7, y + 7, width, height)),
    ];
    (0..3).any(|a| c.iter().all(|w| w[a].is_sign_negative()))
}

/// A frame of the library beside a picture drawn pixel by pixel.
struct Scene {
    frame: Frame<Rgba>,
    width: u32,
    height: u32,
    depth: Vec<f32>,
    color: Vec<Rgba>,
}

impl Scene {
    fn new(width: u32, height: u32, fill: Rgba) -> Scene {
        Scene {
            frame: Frame::new(width, height, fill),
            width,
            height,
            depth: vec![1.0; (width * height) as usize],
            color: vec![fill; (width * height) as usize],
        }
    }

    fn clear(&mut self, fill: Rgba) {
        self.frame.clear(fill);
        for d in self.depth.iter_mut() {
            *d = 1.0;
        }
        for c in self.color.iter_mut() {
            *c = fill;
        }
    }

    fn draw<A: Copy, F: Fn(&Triangle<A>, [f32; 3]) -> Rgba>(
        &mut self,
        triangles: Vec<Triangle<([f32; 4], A)>>,
        fragment: F,
    ) {
        let (width, height) = (self.width, self.height);
        let clips: Vec<[[f32; 3]; 3]> = triangles
            .iter()
            .map(|t| [divide(&t.x.0), divide(&t.y.0), divide(&t.z.0)])
            .collect();
        let attrs: Vec<Triangle<A>> =
            triangles.iter().map(|t| Triangle::new(t.x.1, t.y.1, t.z.1)).collect();
        let fields: Vec<Field> = clips.iter().map(Field::new).collect();
        let footprints: Vec<Footprint> =
            clips.iter().map(|c| footprint(c, width, height)).collect();

        let sampler = |k: usize, ix: usize, iy: usize| sample(&fields[k], ix, iy, width, height);
        let shader = |k: usize, w: [u32; 3]| {
            fragment(&attrs[k], [f32::from_bits(w[0]), f32::from_bits(w[1]), f32::from_bits(w[2])])
        };
        self.frame.raster(&footprints, &sampler, &shader);

        for k in 0..clips.len() {
            if normal_z(&clips[k]) >= 0. {
                continue;
            }
            for py in 0..height {
                for px in 0..width {
                    if skipped(&fields[k], px & !7, py & !7, width, height) {
                        continue;
                    }
                    let w = fields[k].weights(point(px, py, width, height));
                    let inside = !w[0].is_sign_negative()
                        && !w[1].is_sign_negative()
                        && !w[2].is_sign_negative();
                    let at = (py * width + px) as usize;
                    let z = fields[k].depth(w);
                    if inside && z < self.depth[at] {
                        self.depth[at] = z;
                        self.color[at] = fragment(&attrs[k], w);
                    }
                }
            }
        }
    }

    /// Exports the frame, holds it against the picture, and returns it.
    fn check(&self) -> Vec<u8> {
        let image = self.frame.to_image();
        assert_eq!(image.len(), (self.width * self.height * 4) as usize);
        let mut expected = Vec::with_capacity(image.len());
        for c in self.color.iter() {
            expected.extend_from_slice(&c.0);
        }
        assert!(expected == image);
        for py in 0..self.height {
            for px in 0..self.width {
                let at = (py * self.width + px) as usize;
                assert_eq!(self.frame.get(px, py), self.color[at]);
            }
        }
        image
    }
}

fn all(image: &[u8], p: [u8; 4]) -> bool {
    image.chunks(4).all(|c| c == p)
}

fn pixel(image: &[u8], x: u32, y: u32) -> [u8; 4] {
    let at = ((y * SIZE + x) * 4) as usize;
    [image[at], image[at + 1], image[at + 2], image[at + 3]]
}

fn proj() -> Matrix4<f32> {
    ortho(-1., 1., -1., 1., -2., 2.)
}

fn plane<F: Fn(f32, f32) -> Vector4<f32>>(place: F) -> Vec<Triangle<([f32; 4], ())>> {
    generators::Plane::new()
        .triangulate()
        .vertex(|v| {
            let p: [f32; 4] = (proj() * place(v.pos.x, v.pos.y)).into();
            (p, ())
        })
        .collect()
}

fn set_value(p: [u8; 4]) -> impl Fn(&Triangle<()>, [f32; 3]) -> Rgba {
    move |_, _| Rgba(p)
}

const WHITE: [u8; 4] = [255, 255, 255, 255];
const GRAY: [u8; 4] = [128, 128, 128, 255];
const NONE: [u8; 4] = [0, 0, 0, 0];

#[test]
fn plane_simple() {
    let mut scene = Scene::new(SIZE, SIZE, Rgba(NONE));
    scene.draw(plane(|x, y| Vector4::new(x, y, 0., 2.) * 0.5), set_value(WHITE));
    let image = scene.check();
    assert_eq!(pixel(&image, 256, 256), WHITE);
    assert_eq!(pixel(&image, 128, 128), WHITE);
    assert_eq!(pixel(&image, 127, 256), NONE);
    assert_eq!(pixel(&image, 256, 385), NONE);
    assert_eq!(pixel(&image, 0, 0), NONE);
}

#[test]
fn plane_clip_far() {
    let mut scene = Scene::new(SIZE, SIZE, Rgba(NONE));
    scene.draw(plane(|x, y| Vector4::new(x, y, 100., 2.) * 0.5), set_value(WHITE));
    scene.check();
}

#[test]
fn plane_clip_near() {
    let mut scene = Scene::new(SIZE, SIZE, Rgba(NONE));
    scene.draw(plane(|x, y| Vector4::new(x, y, -100., 2.) * 0.5), set_value(WHITE));
    scene.check();
}

#[test]
fn plane_backface() {
    let mut scene = Scene::new(SIZE, SIZE, Rgba(NONE));
    scene.draw(plane(|x, y| Vector4::new(-x, y, 0., 2.) * 0.5), set_value(WHITE));
    let image = scene.check();
    assert!(all(&image, NONE));
}

#[test]
fn plane_fill() {
    let mut scene = Scene::new(SIZE, SIZE, Rgba(NONE));
    scene.draw(plane(|x, y| Vector4::new(x, y, 0., 1.)), set_value(WHITE));
    let image = scene.check();
    assert!(all(&image, WHITE));
}

#[test]
fn plane_overfill() {
    let mut scene = Scene::new(SIZE, SIZE, Rgba(NONE));
    scene.draw(plane(|x, y| Vector4::new(x * 100., y * 100., 0., 2.)), set_value(WHITE));
    let image = scene.check();
    assert!(all(&image, WHITE));
}

#[test]
fn plane_back_front() {
    let mut scene = Scene::new(SIZE, SIZE, Rgba(NONE));
    scene.draw(plane(|x, y| Vector4::new(x, y, 0., 1.)), set_value(WHITE));
    scene.draw(plane(|x, y| Vector4::new(x, y, 1., 1.)), set_value(GRAY));
    let image = scene.check();
    assert!(all(&image, GRAY));
}

#[test]
fn plane_front_back() {
    let mut scene = Scene::new(SIZE, SIZE, Rgba(NONE));
    scene.draw(plane(|x, y| Vector4::new(x, y, 1., 1.)), set_value(WHITE));
    scene.draw(plane(|x, y| Vector4::new(x, y, 0., 1.)), set_value(GRAY));
    let image = scene.check();
    assert!(all(&image, WHITE));
}

#[test]
fn cube() {
    let angle = Deg(45.0f32);
    let rot: Quaternion<f32> = Quaternion::from(Euler::new(angle, angle, Deg(0.)));
    let rot: Matrix4<f32> = Matrix4::from(rot);

    let triangle = [
        [255.0f32, 0.0, 0.0],
        [0.0, 255.0, 0.0],
        [0.0, 0.0, 255.0],
        [255.0, 255.0, 0.0],
        [0.0, 255.0, 255.0],
        [255.0, 0.0, 255.0],
    ];
    let mut i = 0;

    let mut scene = Scene::new(SIZE, SIZE, Rgba(NONE));
    let cube: Vec<Triangle<([f32; 4], Flat<[f32; 3]>)>> = generators::Cube::new()
        .triangulate()
        .vertex(|v| {
            let p: [f32; 4] =
                (proj() * (rot * Vector4::new(v.pos.x * 0.5, v.pos.y * 0.5, v.pos.z * 0.5, 1.)))
                    .into();
            p
        })
        .map(|p| {
            let color = triangle[i % 6];
            i += 1;
            Triangle::new((p.x, Flat(color)), (p.y, Flat(color)), (p.z, Flat(color)))
        })
        .collect();
    assert_eq!(cube.len(), 12);

    scene.draw(cube, |t: &Triangle<Flat<[f32; 3]>>, w| {
        let color = Flat::interpolate(
            &rusterize::Triangle::new(t.x, t.y, t.z),
            [w[0].to_bits(), w[1].to_bits(), w[2].to_bits()],
        );
        Rgba([color[0] as u8, color[1] as u8, color[2] as u8, 255])
    });
    let image = scene.check();
    assert_ne!(pixel(&image, 256, 256), NONE);
    assert_eq!(pixel(&image, 0, 0), NONE);
}

fn gouraud(t: &Triangle<[f32; 3]>, w: [f32; 3]) -> [f32; 3] {
    [
        w[0] * t.x[0] + w[1] * t.y[0] + w[2] * t.z[0],
        w[0] * t.x[1] + w[1] * t.y[1] + w[2] * t.z[1],
        w[0] * t.x[2] + w[1] * t.y[2] + w[2] * t.z[2],
    ]
}

#[test]
fn triangle() {
    let triangle = vec![Triangle::new(
        ([-0.5f32, -0.5, 0., 1.], [1.0f32, 0.0, 0.0]),
        ([0.5, -0.5, 0., 1.], [0.0, 1.0, 0.0]),
        ([0.0, 0.5, 0., 1.], [0.0, 0.0, 1.0]),
    )];

    let mut scene = Scene::new(SIZE, SIZE, Rgba(NONE));
    scene.draw(triangle, |t: &Triangle<[f32; 3]>, w| {
        let color = gouraud(t, w);
        Rgba([(color[0] * 255.) as u8, (color[1] * 255.) as u8, (color[2] * 255.) as u8, 255])
    });
    let image = scene.check();
    assert_eq!(pixel(&image, 128, 128), [255, 0, 0, 255]);
    assert_eq!(pixel(&image, 384, 128), [0, 255, 0, 255]);
    assert_eq!(pixel(&image, 256, 384), [0, 0, 255, 255]);
    assert_eq!(pixel(&image, 256, 128), [127, 127, 0, 255]);
    assert_eq!(pixel(&image, 127, 128), NONE);
    assert_eq!(pixel(&image, 256, 127), NONE);
}

#[test]
fn triangle_flat() {
    let triangle = vec![Triangle::new(
        ([-0.5f32, -0.5, 0., 1.], Flat([1.0f32, 0.0, 0.0])),
        ([0.5, -0.5, 0., 1.], Flat([0.0, 1.0, 0.0])),
        ([0.0, 0.5, 0., 1.], Flat([0.0, 0.0, 1.0])),
    )];

    let mut scene = Scene::new(SIZE, SIZE, Rgba(NONE));
    scene.draw(triangle, |t: &Triangle<Flat<[f32; 3]>>, w| {
        let color = Flat::interpolate(
            &rusterize::Triangle::new(t.x, t.y, t.z),
            [w[0].to_bits(), w[1].to_bits(), w[2].to_bits()],
        );
        Rgba([(color[0] * 255.) as u8, (color[1] * 255.) as u8, (color[2] * 255.) as u8, 255])
    });
    let image = scene.check();
    assert_eq!(pixel(&image, 128, 128), [255, 0, 0, 255]);
    assert_eq!(pixel(&image, 384, 128), [255, 0, 0, 255]);
    assert_eq!(pixel(&image, 256, 384), [255, 0, 0, 255]);
    assert_eq!(pixel(&image, 256, 200), [255, 0, 0, 255]);
    assert_eq!(pixel(&image, 127, 128), NONE);
}

#[test]
fn buffer_clear() {
    let mut scene = Scene::new(SIZE, SIZE, Rgba(NONE));
    scene.draw(plane(|x, y| Vector4::new(x, y, 0., 1.)), set_value(WHITE));
    scene.clear(Rgba(NONE));
    let image = scene.check();
    assert!(all(&image, NONE));
}

fn checker_board(t: &Triangle<[f32; 2]>, w: [f32; 3]) -> Rgba {
    let u = w[0] * t.x[0] + w[1] * t.y[0] + w[2] * t.z[0];
    let v = w[0] * t.x[1] + w[1] * t.y[1] + w[2] * t.z[1];
    let (x, y) = (u.floor() as u32, v.floor() as u32);
    if (x & 1) ^ (y & 1) == 0 {
        Rgba([192, 192, 192, 255])
    } else {
        Rgba([64, 64, 64, 255])
    }
}

#[test]
fn plane_checker() {
    let mut scene = Scene::new(SIZE, SIZE, Rgba([255, 20, 147, 255]));
    let mat: Matrix4<f32> = perspective(Deg(90.0f32), 1., 0.5, 2.5);
    let v = vec![Quad::new(
        ([-0.8f32, -0.8, -1.0, 1.], [0.000f32, 0.000]),
        ([0.8, -0.8, -1.0, 1.], [7.999, 0.000]),
        ([0.8, 0.8, -2.0, 1.], [7.999, 7.999]),
        ([-0.8, 0.8, -2.0, 1.], [0.000, 7.999]),
    )];

    let quad: Vec<Triangle<([f32; 4], [f32; 2])>> = v
        .into_iter()
        .vertex(|(p, t)| {
            let p = Vector4::new(p[0], p[1], p[2], p[3]);
            let q: [f32; 4] = (mat * p).into();
            (q, t)
        })
        .triangulate()
        .collect();

    scene.draw(quad, checker_board);
    let image = scene.check();
    assert_eq!(pixel(&image, 0, 0), [255, 20, 147, 255]);
    assert_ne!(pixel(&image, 256, 100), [255, 20, 147, 255]);
    assert_eq!(pixel(&image, 256, 40), [255, 20, 147, 255]);
    let drawn = image.chunks(4).filter(|c| *c != [255, 20, 147, 255]).count();
    let light = image.chunks(4).filter(|c| *c == [192, 192, 192, 255]).count();
    let dark = image.chunks(4).filter(|c| *c == [64, 64, 64, 255]).count();
    assert_eq!(drawn, light + dark);
    assert!(light > 0 && dark > 0);
}

#[test]
fn same_list_twice_gives_the_same_frame() {
    let triangle = || {
        vec![
            Triangle::new(
                ([-0.9f32, -0.7, 0.2, 1.], [1.0f32, 0.0, 0.0]),
                ([0.8, -0.3, 0.4, 1.], [0.0, 1.0, 0.0]),
                ([0.1, 0.9, -0.3, 1.], [0.0, 0.0, 1.0]),
            ),
            Triangle::new(
                ([-0.5f32, -0.9, 0.3, 1.], [0.0f32, 0.0, 1.0]),
                ([0.9, 0.1, 0.1, 1.], [1.0, 1.0, 0.0]),
                ([-0.7, 0.6, 0.2, 1.], [0.0, 1.0, 1.0]),
            ),
        ]
    };
    let shade = |t: &Triangle<[f32; 3]>, w: [f32; 3]| {
        let color = gouraud(t, w);
        Rgba([(color[0] * 255.) as u8, (color[1] * 255.) as u8, (color[2] * 255.) as u8, 255])
    };
    let mut first = Scene::new(SIZE, SIZE, Rgba(NONE));
    first.draw(triangle(), shade);
    let mut second = Scene::new(SIZE, SIZE, Rgba(NONE));
    second.draw(triangle(), shade);
    let a = first.check();
    let b = second.check();
    assert!(a == b);
    assert!(!all(&a, NONE));
}

#[test]
fn nearer_triangle_wins_in_either_order() {
    let near = || {
        vec![Triangle::new(
            ([-0.9f32, -0.9, 0., 1.], ()),
            ([0.9, -0.9, 0., 1.], ()),
            ([0.0, 0.9, 0., 1.], ()),
        )]
    };
    let far = || {
        vec![Triangle::new(
            ([-0.4f32, -0.4, 0.5, 1.], ()),
            ([0.4, -0.4, 0.5, 1.], ()),
            ([0.0, 0.4, 0.5, 1.], ()),
        )]
    };
    let mut first = Scene::new(SIZE, SIZE, Rgba(NONE));
    first.draw(near(), set_value(WHITE));
    first.draw(far(), set_value(GRAY));
    let a = first.check();
    let mut second = Scene::new(SIZE, SIZE, Rgba(NONE));
    second.draw(far(), set_value(GRAY));
    second.draw(near(), set_value(WHITE));
    let b = second.check();
    assert!(a == b);
    assert!(a.chunks(4).all(|c| c == WHITE || c == NONE));
    assert_eq!(pixel(&a, 256, 256), WHITE);
}

#[test]
fn coverage_moves_with_the_triangle_across_a_tile_boundary() {
    // Corners on quarter pixels, so that moving the triangle by whole pixels
    // moves every sample exactly. The first triangle lies across the corner
    // where four tiles meet at pixel (256, 256); moved by (16, 14) it lies
    // inside one tile.
    let ndc = |px: f32| px / 256. - 1.;
    let at = |dx: f32, dy: f32| {
        vec![Triangle::new(
            ([ndc(246.25 + dx), ndc(250.5 + dy), 0., 1.], ()),
            ([ndc(268.75 + dx), ndc(255.25 + dy), 0., 1.], ()),
            ([ndc(255.5 + dx), ndc(270.75 + dy), 0., 1.], ()),
        )]
    };
    let mut first = Scene::new(SIZE, SIZE, Rgba(NONE));
    first.draw(at(0., 0.), set_value(WHITE));
    let a = first.check();
    let mut second = Scene::new(SIZE, SIZE, Rgba(NONE));
    second.draw(at(16., 14.), set_value(WHITE));
    let b = second.check();

    let mut covered = 0;
    let mut tiles = std::collections::BTreeSet::new();
    for y in 0..SIZE {
        for x in 0..SIZE {
            let here = pixel(&a, x, y) == WHITE;
            if here {
                covered += 1;
                tiles.insert((x / 32, y / 32));
                assert_eq!(pixel(&b, x + 16, y + 14), WHITE);
            }
            if x >= 16 && y >= 14 {
                assert_eq!(pixel(&b, x, y) == WHITE, pixel(&a, x - 16, y - 14) == WHITE);
            } else {
                assert_eq!(pixel(&b, x, y), NONE);
            }
        }
    }
    assert!(covered > 150);
    assert_eq!(tiles.len(), 4);
    let moved: std::collections::BTreeSet<(u32, u32)> = (0..SIZE * SIZE)
        .filter(|i| pixel(&b, i % SIZE, i / SIZE) == WHITE)
        .map(|i| ((i % SIZE) / 32, (i / SIZE) / 32))
        .collect();
    assert_eq!(moved.into_iter().collect::<Vec<_>>(), vec![(8, 8)]);
}

#[test]
fn clear_then_export_is_one_colour() {
    let mut scene = Scene::new(64, 96, Rgba([9, 8, 7, 6]));
    scene.draw(
        vec![Triangle::new(
            ([-1.0f32, -1.0, 0., 1.], ()),
            ([1.0, -1.0, 0., 1.], ()),
            ([0.0, 1.0, 0., 1.], ()),
        )],
        set_value(WHITE),
    );
    scene.clear(Rgba([1, 2, 3, 4]));
    let image = scene.check();
    assert_eq!(image.len(), 64 * 96 * 4);
    assert!(all(&image, [1, 2, 3, 4]));
}

#[test]
fn a_triangle_far_beyond_the_frame_fills_what_is_seen_of_it() {
    let mut scene = Scene::new(SIZE, SIZE, Rgba(NONE));
    scene.draw(
        vec![Triangle::new(
            ([-300.0f32, -200.0, 0., 1.], ()),
            ([500.0, -100.0, 0., 1.], ()),
            ([0.0, 700.0, 0., 1.], ()),
        )],
        set_value(WHITE),
    );
    let image = scene.check();
    assert!(all(&image, WHITE));

    let mut scene = Scene::new(SIZE, SIZE, Rgba(NONE));
    scene.draw(
        vec![Triangle::new(
            ([-3.0f32, -3.0, 0., 1.], ()),
            ([0.0, -3.0, 0., 1.], ()),
            ([-3.0, 0.0, 0., 1.], ()),
        )],
        set_value(WHITE),
    );
    let image = scene.check();
    assert!(all(&image, NONE));
}

#[test]
fn a_frame_that_is_not_square() {
    let mut scene = Scene::new(96, 32, Rgba(NONE));
    scene.draw(
        vec![Triangle::new(
            ([-1.0f32, -1.0, 0., 1.], ()),
            ([1.0, -1.0, 0., 1.], ()),
            ([1.0, 1.0, 0., 1.], ()),
        )],
        set_value(WHITE),
    );
    let image = scene.check();
    assert_eq!(image.len(), 96 * 32 * 4);
    assert_eq!(&image[(95 * 4)..(96 * 4)], &WHITE[..]);
    assert_eq!(&image[(31 * 96 * 4)..(31 * 96 * 4 + 4)], &NONE[..]);
}
