//! The renderer: from a scene to a buffer of pixels.
//!
//! Every pixel is the average of a number of samples. Each sample looks
//! through the pixel at a point that is moved a little off the pixel's
//! corner by a jitter offset, which smooths the edges in the picture. The
//! offsets are handed in as a table, so that the caller chooses how they are
//! distributed; sample `k` of the pixel with the index `i` takes the entry
//! `i * samples + k` of the table, which is read round and round.

use crate::fixed::Fixed;
use crate::lights::ImmediateLight;
use crate::objects::RenderedObject;
use crate::post_process::PostProcessor;
use crate::scene::Scene;
use crate::vec::Vec3;
use vstd::prelude::*;

verus! {

/// The settings of a rendering.
pub struct Renderer<P: PostProcessor> {
    /// The width and the height of the picture, in pixels.
    pub size: u32,
    /// The number of samples that are averaged into one pixel.
    pub samples: u32,
    /// The number of bounces over which light is followed.
    pub num_bounces: u32,
    /// Half the width of the picture plane at distance one from the camera.
    pub camera_size: Fixed,
    /// The width of the jitter, in pixels: twice its standard deviation.
    pub pixel_size: Fixed,
    /// What is applied to the averaged colour of each pixel.
    pub post_process: P,
}

/// The entry of the jitter table for the sample with the running number
/// `n`: the table is read round and round, and an empty table stands for no
/// jitter.
pub open spec fn jitter_at(jitter: Seq<(Fixed, Fixed)>, n: int) -> (Fixed, Fixed) {
    if jitter.len() == 0 {
        (Fixed::of(0), Fixed::of(0))
    } else {
        jitter[n % (jitter.len() as int)]
    }
}

/// The three bytes of the pixel with the index `i` of a buffer.
pub open spec fn pixel_of(buf: Seq<u8>, i: int) -> (u8, u8, u8) {
    (buf[3 * i], buf[3 * i + 1], buf[3 * i + 2])
}

/// The sum of the given colours, one after the other.
pub open spec fn total_of(colors: Seq<Vec3>) -> Vec3
    decreases colors.len(),
{
    if colors.len() == 0 {
        Vec3::whole(0, 0, 0)
    } else {
        total_of(colors.drop_last()) + colors.last()
    }
}

/// The entry of the jitter table for the sample with the running number
/// `n`.
pub fn jitter_for(jitter: &Vec<(Fixed, Fixed)>, n: u128) -> (r: (Fixed, Fixed))
    ensures
        r == jitter_at(jitter@, n as int),
{
    if jitter.len() == 0 {
        (Fixed::zero(), Fixed::zero())
    } else {
        let at = (n % (jitter.len() as u128)) as usize;
        jitter[at]
    }
}

impl<P: PostProcessor> Renderer<P> {
    /// The standard deviation that the jitter offsets should have: half of
    /// `pixel_size`.
    pub open spec fn spec_jitter_deviation(&self) -> Fixed {
        self.pixel_size / Fixed::spec_from_int(2)
    }

    /// One component of the direction through a pixel: the pixel's number
    /// plus the jitter, as a fraction of the picture, centred and scaled to
    /// the picture plane.
    pub open spec fn ray_component(&self, pixel: u32, jitter: Fixed) -> Fixed {
        ((Fixed::spec_from_int(pixel as int) + jitter) / Fixed::spec_from_int(self.size as int)
            - Fixed::spec_ratio(1, 2)) * Fixed::spec_from_int(2) * self.camera_size
    }

    /// The direction of the ray from the camera through the pixel
    /// `(x, y)`, moved off the pixel's corner by `(dx, dy)`.
    pub open spec fn ray_direction(&self, x: u32, y: u32, dx: Fixed, dy: Fixed) -> Vec3 {
        (Vec3 {
            x: self.ray_component(x, dx),
            y: self.ray_component(y, dy),
            z: Fixed::spec_from_int(1),
        }).spec_normalized()
    }

    /// The running number of sample `k` of the pixel `(x, y)`.
    pub open spec fn sample_number(&self, x: u32, y: u32, k: int) -> int {
        (y * self.size + x) * self.samples + k
    }

    /// The direction of sample `k` of the pixel `(x, y)`, for a given
    /// jitter table.
    pub open spec fn ray_of_sample(
        &self,
        x: u32,
        y: u32,
        jitter: Seq<(Fixed, Fixed)>,
        k: int,
    ) -> Vec3 {
        let offset = jitter_at(jitter, self.sample_number(x, y, k));
        self.ray_direction(x, y, offset.0, offset.1)
    }

    /// The bytes of a pixel whose samples add up to `total`: the average,
    /// post-processed, each channel clamped into `[0, 1]` and scaled to a
    /// byte.
    pub open spec fn encode(&self, total: Vec3) -> (u8, u8, u8) {
        let color = self.post_process.processed(
            total.divided_by(Fixed::spec_from_int(self.samples as int)),
        );
        (color.x.spec_to_byte(), color.y.spec_to_byte(), color.z.spec_to_byte())
    }

    /// Whether `rgb` is a value that the pixel `(x, y)` can have: whether
    /// there is, for each sample, a colour that can be seen along its ray,
    /// such that `rgb` encodes their sum.
    pub open spec fn may_render<O: RenderedObject, L: ImmediateLight>(
        &self,
        scene: &Scene<O, L>,
        x: u32,
        y: u32,
        jitter: Seq<(Fixed, Fixed)>,
        rgb: (u8, u8, u8),
    ) -> bool {
        exists|colors: Seq<Vec3>|
            {
                &&& colors.len() == self.samples
                &&& forall|k: int|
                    0 <= k < colors.len() ==> scene.may_see(
                        Vec3::whole(0, 0, 0),
                        self.ray_of_sample(x, y, jitter, k),
                        self.num_bounces as nat,
                        #[trigger] colors[k],
                    )
                &&& rgb == self.encode(#[trigger] total_of(colors))
            }
    }

    /// The standard deviation that the jitter offsets should have.
    pub fn jitter_deviation(&self) -> (r: Fixed)
        ensures
            r == self.spec_jitter_deviation(),
    {
        self.pixel_size / Fixed::from_int(2)
    }

    /// The direction of the ray from the camera through the pixel
    /// `(x, y)`, moved off the pixel's corner by `(dx, dy)`.
    pub fn camera_ray(&self, x: u32, y: u32, dx: Fixed, dy: Fixed) -> (r: Vec3)
        ensures
            r == self.ray_direction(x, y, dx, dy),
    {
        let size = Fixed::from_int(self.size as i64);
        let half = Fixed::ratio(1, 2);
        let two = Fixed::from_int(2);
        let ray_dir_x = ((Fixed::from_int(x as i64) + dx) / size - half) * two * self.camera_size;
        let ray_dir_y = ((Fixed::from_int(y as i64) + dy) / size - half) * two * self.camera_size;
        let ray_dir_z = Fixed::from_int(1);
        (Vec3 { x: ray_dir_x, y: ray_dir_y, z: ray_dir_z }).normalized()
    }

    /// One sample of the pixel `(x, y)`: the colour that is seen from the
    /// camera, which stands at the origin, through the pixel moved by
    /// `(dx, dy)`.
    pub fn sample<O: RenderedObject, L: ImmediateLight>(
        &self,
        scene: &Scene<O, L>,
        x: u32,
        y: u32,
        dx: Fixed,
        dy: Fixed,
    ) -> (c: Vec3)
        ensures
            scene.may_see(
                Vec3::whole(0, 0, 0),
                self.ray_direction(x, y, dx, dy),
                self.num_bounces as nat,
                c,
            ),
    {
        let ray_dir = self.camera_ray(x, y, dx, dy);
        let origin = Vec3 { x: Fixed::from_int(0), y: Fixed::from_int(0), z: Fixed::from_int(0) };
        scene.do_camera_ray(origin, ray_dir, self.num_bounces)
    }

    /// The bytes of a pixel whose samples add up to `total`.
    pub fn resolve(&self, total: Vec3) -> (rgb: (u8, u8, u8))
        ensures
            rgb == self.encode(total),
    {
        let color = total / Fixed::from_int(self.samples as i64);
        let color = self.post_process.process_pixel(color);
        (color.x.to_byte(), color.y.to_byte(), color.z.to_byte())
    }

    /// Renders the pixel `(x, y)`: takes all its samples, adds them up and
    /// encodes the sum.
    pub fn render_pixel<O: RenderedObject, L: ImmediateLight>(
        &self,
        scene: &Scene<O, L>,
        x: u32,
        y: u32,
        jitter: &Vec<(Fixed, Fixed)>,
    ) -> (rgb: (u8, u8, u8))
        ensures
            self.may_render(scene, x, y, jitter@, rgb),
    {
        let mut color = Vec3 { x: Fixed::from_int(0), y: Fixed::from_int(0), z: Fixed::from_int(0) };
        assert((y as u128) * (self.size as u128) <= 0xffff_ffff * 0xffff_ffff) by (nonlinear_arith)
            requires
                y <= 0xffff_ffff,
                self.size <= 0xffff_ffff,
        ;
        let pixel: u128 = (y as u128) * (self.size as u128) + (x as u128);
        assert(pixel * (self.samples as u128) <= 0xffff_ffff_0000_0000 * 0xffff_ffff)
            by (nonlinear_arith)
            requires
                pixel <= 0xffff_ffff_0000_0000,
                self.samples <= 0xffff_ffff,
        ;
        let first: u128 = pixel * (self.samples as u128);
        let ghost mut colors: Seq<Vec3> = Seq::empty();
        let mut k: u32 = 0;
        while k < self.samples
            invariant
                k <= self.samples,
                first == (y * self.size + x) * self.samples,
                first <= 0xffff_ffff_0000_0000 * 0xffff_ffff,
                colors.len() == k,
                forall|j: int|
                    0 <= j < k ==> scene.may_see(
                        Vec3::whole(0, 0, 0),
                        self.ray_of_sample(x, y, jitter@, j),
                        self.num_bounces as nat,
                        #[trigger] colors[j],
                    ),
                color == total_of(colors),
            decreases self.samples - k,
        {
            let offset = jitter_for(jitter, first + k as u128);
            let seen = self.sample(scene, x, y, offset.0, offset.1);
            proof {
                assert(colors.push(seen).drop_last() == colors);
                colors = colors.push(seen);
            }
            color = color + seen;
            k = k + 1;
        }
        self.resolve(color)
    }

    /// Renders the whole picture: `size` rows of `size` pixels, from the
    /// top row down and in each row from left to right, three bytes for
    /// each pixel.
    pub fn render<O: RenderedObject, L: ImmediateLight>(
        &self,
        scene: &Scene<O, L>,
        jitter: &Vec<(Fixed, Fixed)>,
    ) -> (buf: Vec<u8>)
        ensures
            buf@.len() == 3 * (self.size * self.size),
            forall|i: int|
                0 <= i < self.size * self.size ==> self.may_render(
                    scene,
                    (i % (self.size as int)) as u32,
                    (i / (self.size as int)) as u32,
                    jitter@,
                    #[trigger] pixel_of(buf@, i),
                ),
    {
        assert((self.size as u64) * (self.size as u64) <= 0xffff_ffff * 0xffff_ffff)
            by (nonlinear_arith)
            requires
                self.size <= 0xffff_ffff,
        ;
        let total: u64 = (self.size as u64) * (self.size as u64);
        let mut buf: Vec<u8> = Vec::new();
        let mut i: u64 = 0;
        while i < total
            invariant
                i <= total,
                total == self.size * self.size,
                buf@.len() == 3 * i,
                forall|j: int|
                    0 <= j < i ==> self.may_render(
                        scene,
                        (j % (self.size as int)) as u32,
                        (j / (self.size as int)) as u32,
                        jitter@,
                        #[trigger] pixel_of(buf@, j),
                    ),
            decreases total - i,
        {
            assert(self.size > 0) by (nonlinear_arith)
                requires
                    i < self.size * self.size,
                    i >= 0,
            ;
            assert(i / (self.size as u64) < self.size) by (nonlinear_arith)
                requires
                    i < self.size * self.size,
                    self.size > 0,
            ;
            let x = (i % (self.size as u64)) as u32;
            let y = (i / (self.size as u64)) as u32;
            let rgb = self.render_pixel(scene, x, y, jitter);
            let ghost before = buf@;
            buf.push(rgb.0);
            buf.push(rgb.1);
            buf.push(rgb.2);
            proof {
                assert forall|j: int| 0 <= j < i + 1 implies self.may_render(
                    scene,
                    (j % (self.size as int)) as u32,
                    (j / (self.size as int)) as u32,
                    jitter@,
                    #[trigger] pixel_of(buf@, j),
                ) by {
                    if j < i {
                        assert(pixel_of(buf@, j) == pixel_of(before, j));
                    } else {
                        assert(pixel_of(buf@, j) == rgb);
                        assert(j % (self.size as int) == x);
                        assert(j / (self.size as int) == y);
                    }
                }
            }
            i = i + 1;
        }
        buf
    }
}

} // verus!
