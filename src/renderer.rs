use vstd::prelude::*;
use vstd::string::StringSliceAdditionalSpecFns;
use crate::pixels::ImageData;
use crate::protocol::{
    base64_of, chunk_sequences_of, delete_all, delete_all_sequence, delete_each, delete_sequences,
    KittyImage,
};
use crate::geometry::{
    Area, centered, ceil_div, div_ceil, fit_dims, lemma_centered_middle, lemma_fit_within,
    lemma_product_fits,
};

verus! {

/// The ids of the images sent to the terminal and not yet erased.
pub type KittyImageSet = Vec<usize>;

/// How the image data is handed to the terminal.
#[derive(Clone, Copy, Debug, PartialEq, Eq, Structural)]
pub enum TransmissionMedium {
    /// The raw pixels are written to a temporary file, whose path is the
    /// payload of a single escape sequence. Fast on a local disk, useless when
    /// the terminal runs on another machine.
    TempFile,
    /// The pixels, in base64, are the payloads of a run of escape sequences
    /// of at most 4096 bytes each. Works over a remote connection.
    Chunks,
}

/// What a renderer remembers, as mathematical values.
pub struct RendererModel {
    pub cell_width: nat,
    pub cell_height: nat,
    pub next_id: nat,
    pub current_images: Option<Seq<usize>>,
    pub medium: TransmissionMedium,
}

/// The operations that touch a renderer's ids.
pub enum RegistryOp {
    NewId,
    Take,
    Erase,
    EraseAll,
}

impl RendererModel {
    /// The state after an id was handed out: the counter moves on and the id
    /// joins the open set, which is created if there is none.
    pub open spec fn with_new_id(self) -> RendererModel {
        RendererModel {
            next_id: self.next_id + 1,
            current_images: Some(
                match self.current_images {
                    Some(ids) => ids,
                    None => Seq::empty(),
                }.push(self.next_id as usize),
            ),
            ..self
        }
    }

    /// The state once the open set was handed to the caller, or dropped.
    pub open spec fn without_images(self) -> RendererModel {
        RendererModel { current_images: None, ..self }
    }

    pub open spec fn apply(self, op: RegistryOp) -> RendererModel {
        match op {
            RegistryOp::NewId => self.with_new_id(),
            RegistryOp::Take => self.without_images(),
            RegistryOp::Erase => self,
            RegistryOp::EraseAll => self.without_images(),
        }
    }

    /// The state after running `ops` in order.
    pub open spec fn run(self, ops: Seq<RegistryOp>) -> RendererModel
        decreases ops.len(),
    {
        if ops.len() == 0 {
            self
        } else {
            self.run(ops.drop_last()).apply(ops.last())
        }
    }

    /// The ids handed out while running `ops`, in the order they were given.
    pub open spec fn issued(self, ops: Seq<RegistryOp>) -> Seq<nat>
        decreases ops.len(),
    {
        if ops.len() == 0 {
            Seq::empty()
        } else {
            let before = self.issued(ops.drop_last());
            match ops.last() {
                RegistryOp::NewId => before.push(self.run(ops.drop_last()).next_id),
                _ => before,
            }
        }
    }
}

impl RendererModel {
    /// The area, inside `area`, where an image of `img_width` by `img_height`
    /// pixels is shown: the size that `fit_dims` gives it, centered.
    pub open spec fn rendering_area_of(self, img_width: nat, img_height: nat, area: Area) -> Area {
        let dims = fit_dims(
            ceil_div(img_width, self.cell_width),
            ceil_div(img_height, self.cell_height),
            area.width as nat,
            area.height as nat,
        );
        centered(area, dims.0, dims.1)
    }
}

/// Ids come from a counter that only `NewId` moves: running any operations,
/// erasures and transfers included, hands out the ids `s.next_id`,
/// `s.next_id + 1`, ... in that order, so they strictly increase and never
/// repeat. A new renderer starts its counter at 1.
pub proof fn law_ids_strictly_increase(s: RendererModel, ops: Seq<RegistryOp>)
    ensures
        forall|i: int| 0 <= i < s.issued(ops).len() ==> #[trigger] s.issued(ops)[i] == s.next_id + i,
        forall|i: int, j: int|
            0 <= i < j < s.issued(ops).len() ==> #[trigger] s.issued(ops)[i] < #[trigger] s.issued(ops)[j],
        s.run(ops).next_id == s.next_id + s.issued(ops).len(),
    decreases ops.len(),
{
    if ops.len() > 0 {
        law_ids_strictly_increase(s, ops.drop_last());
    }
}

/// A renderer just made hands out the ids 1, 2, 3, ... in that order,
/// whatever other operations come between them.
pub proof fn law_fresh_ids_count_from_one(s: RendererModel, ops: Seq<RegistryOp>)
    requires
        s.next_id == 1,
    ensures
        forall|i: int| 0 <= i < s.issued(ops).len() ==> #[trigger] s.issued(ops)[i] == i + 1,
{
    law_ids_strictly_increase(s, ops);
}

/// An id once handed out is never handed out again: after it, whatever
/// operations run, the next id is larger.
pub proof fn law_id_never_reused(s: RendererModel, ops: Seq<RegistryOp>)
    ensures
        s.apply(RegistryOp::NewId).run(ops).next_id > s.next_id,
{
    law_ids_strictly_increase(s.apply(RegistryOp::NewId), ops);
}

/// Once every image was erased at once, no open set of ids is left to take.
pub proof fn law_erase_all_clears(s: RendererModel)
    ensures
        s.apply(RegistryOp::EraseAll).current_images is None,
        s.apply(RegistryOp::EraseAll).apply(RegistryOp::Take).current_images is None,
{
}

/// `name` holds the text `kitty`, as a terminal's name does when the
/// terminal speaks the Kitty graphics protocol.
pub open spec fn names_kitty(name: Seq<u8>) -> bool {
    let needle = "kitty".spec_bytes();
    exists|i: int|
        0 <= i && i + needle.len() <= name.len() && #[trigger] name.subrange(i, i + needle.len())
            == needle
}

/// Whether a terminal of this name speaks the Kitty graphics protocol,
/// judged by its name holding `kitty`.
pub fn is_kitty_term_name(name: &str) -> (r: bool)
    ensures
        r == names_kitty(name.spec_bytes()),
{
    let bytes = name.as_bytes();
    let needle = "kitty".as_bytes();
    let n = bytes.len();
    let m = needle.len();
    if n < m {
        return false;
    }
    let mut i: usize = 0;
    while i <= n - m
        invariant
            n == bytes@.len(),
            m == needle@.len(),
            m <= n,
            needle@ == "kitty".spec_bytes(),
            bytes@ == name.spec_bytes(),
            forall|k: int| 0 <= k < i && k + m <= n ==> #[trigger] bytes@.subrange(k, k + m) != needle@,
        decreases n + 1 - i,
    {
        let mut j: usize = 0;
        while j < m && bytes[i + j] == needle[j]
            invariant
                i + m <= n,
                n == bytes@.len(),
                m == needle@.len(),
                j <= m,
                forall|q: int| 0 <= q < j ==> bytes@[i + q] == needle@[q],
            decreases m - j,
        {
            j = j + 1;
        }
        if j == m {
            assert(bytes@.subrange(i as int, i + m) =~= needle@);
            return true;
        }
        assert(bytes@.subrange(i as int, i + m)[j as int] != needle@[j as int]);
        i = i + 1;
    }
    false
}

/// Renders images in a terminal that speaks the Kitty graphics protocol,
/// knowing the size in pixels of the terminal's cells.
pub struct KittyImageRenderer {
    cell_width: u32,
    cell_height: u32,
    next_id: usize,
    current_images: Option<KittyImageSet>,
    pub transmission_medium: TransmissionMedium,
}

impl View for KittyImageRenderer {
    type V = RendererModel;

    closed spec fn view(&self) -> RendererModel {
        RendererModel {
            cell_width: self.cell_width as nat,
            cell_height: self.cell_height as nat,
            next_id: self.next_id as nat,
            current_images: match self.current_images {
                Some(ids) => Some(ids@),
                None => None,
            },
            medium: self.transmission_medium,
        }
    }
}

impl KittyImageRenderer {
    /// Both cell dimensions are known and positive.
    pub open spec fn wf(&self) -> bool {
        self@.cell_width > 0 && self@.cell_height > 0
    }

    /// The renderer for a terminal, given whether it speaks the Kitty
    /// protocol and the size of its cells in pixels, if that could be learnt.
    /// There is none for another terminal, nor without a usable cell size.
    pub fn new(is_kitty: bool, cell_size: Option<(u32, u32)>) -> (r: Option<Self>)
        ensures
            r is Some <==> is_kitty && cell_size is Some && cell_size.unwrap().0 > 0
                && cell_size.unwrap().1 > 0,
            r is Some ==> r->0.wf() && r->0@ == (RendererModel {
                cell_width: cell_size.unwrap().0 as nat,
                cell_height: cell_size.unwrap().1 as nat,
                next_id: 1,
                current_images: None,
                medium: TransmissionMedium::Chunks,
            }),
    {
        if !is_kitty {
            return None;
        }
        match cell_size {
            Some((cell_width, cell_height)) => {
                if cell_width == 0 || cell_height == 0 {
                    None
                } else {
                    Some(
                        KittyImageRenderer {
                            cell_width,
                            cell_height,
                            current_images: None,
                            next_id: 1,
                            transmission_medium: TransmissionMedium::Chunks,
                        },
                    )
                }
            },
            None => None,
        }
    }

    /// Hands the open set of ids to the caller, who becomes responsible for
    /// erasing those images.
    pub fn take_current_images(&mut self) -> (r: Option<KittyImageSet>)
        ensures
            final(self)@ == old(self)@.apply(RegistryOp::Take),
            match r {
                Some(ids) => old(self)@.current_images == Some(ids@),
                None => old(self)@.current_images is None,
            },
    {
        self.current_images.take()
    }

    /// The id that the next call of `new_id` hands out.
    pub fn next_id(&self) -> (r: usize)
        ensures
            r == self@.next_id,
    {
        self.next_id
    }

    /// The chunked escape sequences of `img` when the renderer sends images
    /// in chunks; `None` when it sends them through a temporary file, which
    /// the caller then writes and hands to `print_with_temp_file`.
    pub fn chunked_transmission(&self, img: &KittyImage) -> (r: Option<Vec<Vec<u8>>>)
        ensures
            r is None <==> self@.medium == TransmissionMedium::TempFile,
            r is Some ==> r->0@.len() == chunk_sequences_of(img, base64_of(img.data.spec_bytes())).len()
                && forall|i: int|
                0 <= i < r->0@.len() ==> #[trigger] r->0@[i]@ == chunk_sequences_of(
                    img,
                    base64_of(img.data.spec_bytes()),
                )[i],
    {
        match self.transmission_medium {
            TransmissionMedium::TempFile => None,
            TransmissionMedium::Chunks => Some(img.print_with_chunks()),
        }
    }

    /// A fresh image id, recorded in the open set.
    pub fn new_id(&mut self) -> (r: usize)
        requires
            old(self)@.next_id < usize::MAX,
        ensures
            r == old(self)@.next_id,
            final(self)@ == old(self)@.apply(RegistryOp::NewId),
    {
        let new_id = self.next_id;
        self.next_id = self.next_id + 1;
        match self.current_images {
            Some(ref mut ids) => ids.push(new_id),
            None => {
                let mut ids: KittyImageSet = Vec::new();
                ids.push(new_id);
                self.current_images = Some(ids);
            },
        }
        proof {
            assert(self@.current_images == old(self)@.with_new_id().current_images);
        }
        new_id
    }

    /// The size in cells given to an image of `img_width` by `img_height`
    /// pixels inside an area of `area_cols` by `area_rows` cells.
    pub fn rendering_dim(&self, img_width: u32, img_height: u32, area_cols: u32, area_rows: u32) -> (r: (u32, u32))
        requires
            self.wf(),
            img_width > 0,
            img_height > 0,
        ensures
            (r.0 as nat, r.1 as nat) == fit_dims(
                ceil_div(img_width as nat, self@.cell_width),
                ceil_div(img_height as nat, self@.cell_height),
                area_cols as nat,
                area_rows as nat,
            ),
            r.0 <= area_cols,
            r.1 <= area_rows,
            ceil_div(img_width as nat, self@.cell_width) <= area_cols && ceil_div(
                img_height as nat,
                self@.cell_height,
            ) <= area_rows ==> r == (
                ceil_div(img_width as nat, self@.cell_width) as u32,
                ceil_div(img_height as nat, self@.cell_height) as u32,
            ),
    {
        let optimal_cols = div_ceil(img_width, self.cell_width);
        let optimal_rows = div_ceil(img_height, self.cell_height);
        proof {
            lemma_fit_within(optimal_cols as nat, optimal_rows as nat, area_cols as nat, area_rows as nat);
        }
        if optimal_cols <= area_cols && optimal_rows <= area_rows {
            (optimal_cols, optimal_rows)
        } else {
            proof {
                lemma_product_fits(optimal_cols, area_rows);
                lemma_product_fits(optimal_rows, area_cols);
            }
            let cols_by_rows = optimal_cols as u64 * area_rows as u64;
            let rows_by_cols = optimal_rows as u64 * area_cols as u64;
            if cols_by_rows > rows_by_cols {
                let height = rows_by_cols / optimal_cols as u64;
                (area_cols, height as u32)
            } else {
                let width = cols_by_rows / optimal_rows as u64;
                (width as u32, area_rows)
            }
        }
    }

    /// The area in which an image of `img_width` by `img_height` pixels is
    /// shown: its fitted size, centered inside `area`.
    pub fn rendering_area(&self, img_width: u32, img_height: u32, area: &Area) -> (r: Area)
        requires
            self.wf(),
            img_width > 0,
            img_height > 0,
            area.left + area.width <= u16::MAX,
            area.top + area.height <= u16::MAX,
        ensures
            r == self@.rendering_area_of(img_width as nat, img_height as nat, *area),
            area.left <= r.left && r.left + r.width <= area.left + area.width,
            area.top <= r.top && r.top + r.height <= area.top + area.height,
            r.left + r.width / 2 <= area.left + area.width / 2 <= r.left + r.width / 2 + 1,
            r.top + r.height / 2 <= area.top + area.height / 2 <= r.top + r.height / 2 + 1,
    {
        let area_cols: u32 = area.width as u32;
        let area_rows: u32 = area.height as u32;
        let rdim = self.rendering_dim(img_width, img_height, area_cols, area_rows);
        proof {
            lemma_centered_middle(area_cols as nat, rdim.0 as nat);
            lemma_centered_middle(area_rows as nat, rdim.1 as nat);
        }
        Area::new(
            area.left + ((area_cols - rdim.0) / 2) as u16,
            area.top + ((area_rows - rdim.1) / 2) as u16,
            rdim.0 as u16,
            rdim.1 as u16,
        )
    }

    /// Prepares an image of `img_width` by `img_height` pixels for display
    /// inside `area`: fits it, centered, and gives it a fresh id. The caller
    /// then sends it through the renderer's transmission medium.
    pub fn print<'i>(&mut self, data: ImageData<'i>, img_width: u32, img_height: u32, area: &Area) -> (r: KittyImage<'i>)
        requires
            old(self).wf(),
            old(self)@.next_id < usize::MAX,
            data.wf(img_width as nat, img_height as nat),
            img_width > 0,
            img_height > 0,
            area.left + area.width <= u16::MAX,
            area.top + area.height <= u16::MAX,
        ensures
            r == (KittyImage {
                id: old(self)@.next_id as usize,
                data,
                img_width,
                img_height,
                area: old(self)@.rendering_area_of(img_width as nat, img_height as nat, *area),
            }),
            final(self)@ == old(self)@.apply(RegistryOp::NewId),
    {
        let rendered = self.rendering_area(img_width, img_height, area);
        let id = self.new_id();
        KittyImage { id, data, img_width, img_height, area: rendered }
    }

    /// The escape sequences that delete each image of `ids`, in order.
    pub fn erase(&mut self, ids: KittyImageSet) -> (r: Vec<u8>)
        ensures
            r@ == delete_sequences(ids@),
            final(self)@ == old(self)@.apply(RegistryOp::Erase),
    {
        delete_each(&ids)
    }

    /// The escape sequence that deletes every image of the terminal, even
    /// those whose ids were forgotten; the open set of ids is dropped.
    pub fn erase_all(&mut self) -> (r: Vec<u8>)
        ensures
            r@ == delete_all_sequence(),
            final(self)@ == old(self)@.apply(RegistryOp::EraseAll),
    {
        let out = delete_all();
        self.current_images = None;
        out
    }
}

} // verus!
