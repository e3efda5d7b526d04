use vstd::prelude::*;
use vstd::string::StringSliceAdditionalSpecFns;
use crate::geometry::Area;
use crate::pixels::ImageData;

verus! {

/// The most bytes of base64 text that one escape sequence carries.
pub const CHUNK_SIZE: usize = 4096;

/// The standard, padded base64 text of `bytes`, as ASCII bytes.
pub uninterp spec fn base64_of(bytes: Seq<u8>) -> Seq<u8>;

/// Relies on base64::encode: the standard, padded base64 text of the input,
/// four characters for each three bytes or part of three.
#[verifier::external_body]
fn base64_encode(bytes: &[u8]) -> (r: Vec<u8>)
    ensures
        r@ == base64_of(bytes@),
        r@.len() == 4 * ((bytes@.len() + 2) / 3),
{
    base64::encode(bytes).into_bytes()
}

/// The ASCII decimal digits of `n`, without leading zeros.
pub open spec fn decimal(n: nat) -> Seq<u8>
    decreases n,
{
    if n < 10 {
        seq![(48 + n) as u8]
    } else {
        decimal(n / 10).push((48 + n % 10) as u8)
    }
}

fn push_decimal(out: &mut Vec<u8>, n: usize)
    ensures
        final(out)@ == old(out)@ + decimal(n as nat),
    decreases n,
{
    if n >= 10 {
        push_decimal(out, n / 10);
    }
    out.push((48 + n % 10) as u8);
    proof {
        if n < 10 {
            assert(n % 10 == n);
        }
        assert(final(out)@ =~= old(out)@ + decimal(n as nat));
    }
}

fn push_bytes(out: &mut Vec<u8>, bytes: &[u8], start: usize, end: usize)
    requires
        start <= end <= bytes@.len(),
    ensures
        final(out)@ == old(out)@ + bytes@.subrange(start as int, end as int),
{
    let mut i = start;
    while i < end
        invariant
            start <= i <= end,
            end <= bytes@.len(),
            out@ == old(out)@ + bytes@.subrange(start as int, i as int),
        decreases end - i,
    {
        out.push(bytes[i]);
        proof {
            assert(bytes@.subrange(start as int, i + 1) =~= bytes@.subrange(start as int, i as int).push(bytes@[i as int]));
        }
        i = i + 1;
    }
}

fn push_str(out: &mut Vec<u8>, s: &str)
    ensures
        final(out)@ == old(out)@ + s.spec_bytes(),
{
    let b = s.as_bytes();
    push_bytes(out, b, 0, b.len());
    proof {
        assert(b@.subrange(0, b@.len() as int) =~= b@);
    }
}

/// Splits base64 text into the payloads of successive escape sequences:
/// slices of `CHUNK_SIZE` bytes, then one last slice of what remains, which
/// may be the whole text, and is empty only when the text is.
pub open spec fn chunk_payloads(encoded: Seq<u8>) -> Seq<Seq<u8>>
    decreases encoded.len(),
{
    if encoded.len() > CHUNK_SIZE {
        seq![encoded.take(CHUNK_SIZE as int)] + chunk_payloads(encoded.skip(CHUNK_SIZE as int))
    } else {
        seq![encoded]
    }
}

/// The parameters that transmit and show an image:
/// `ESC _G a=T,f=<format>,t=<medium>,i=<id>,s=<width>,v=<height>,c=<cols>,r=<rows>`.
pub open spec fn display_params(img: &KittyImage, medium: &str) -> Seq<u8> {
    "\x1b_Ga=T,f=".spec_bytes() + img.data.format_code().spec_bytes() + ",t=".spec_bytes()
        + medium.spec_bytes() + ",i=".spec_bytes() + decimal(img.id as nat) + ",s=".spec_bytes()
        + decimal(img.img_width as nat) + ",v=".spec_bytes() + decimal(img.img_height as nat)
        + ",c=".spec_bytes() + decimal(img.area.width as nat) + ",r=".spec_bytes() + decimal(
        img.area.height as nat,
    )
}

/// A chunk that more chunks follow: the full parameters, `m=1`, the payload.
pub open spec fn more_chunk_sequence(img: &KittyImage, payload: Seq<u8>) -> Seq<u8> {
    display_params(img, "d") + ",m=1;".spec_bytes() + payload + "\x1b\\".spec_bytes()
}

/// The only chunk of a short text: the full parameters, `m=0`, the payload.
pub open spec fn only_chunk_sequence(img: &KittyImage, payload: Seq<u8>) -> Seq<u8> {
    display_params(img, "d") + ",m=0;".spec_bytes() + payload + "\x1b\\".spec_bytes()
}

/// The last of several chunks: `m=0` and the payload; the parameters went
/// with the first chunk.
pub open spec fn last_chunk_sequence(payload: Seq<u8>) -> Seq<u8> {
    "\x1b_Gm=0;".spec_bytes() + payload + "\x1b\\".spec_bytes()
}

/// The escape sequences that carry the base64 text `encoded` of an image.
/// The first always carries the parameters that transmit and show it.
pub open spec fn chunk_sequences_of(img: &KittyImage, encoded: Seq<u8>) -> Seq<Seq<u8>> {
    let payloads = chunk_payloads(encoded);
    Seq::new(
        payloads.len(),
        |i: int|
            if payloads.len() == 1 {
                only_chunk_sequence(img, payloads[i])
            } else if i + 1 < payloads.len() {
                more_chunk_sequence(img, payloads[i])
            } else {
                last_chunk_sequence(payloads[i])
            },
    )
}

/// The one escape sequence that points the terminal at a file, whose path
/// has the base64 text `encoded_path`.
pub open spec fn temp_file_sequence_of(img: &KittyImage, encoded_path: Seq<u8>) -> Seq<u8> {
    display_params(img, "t") + ";".spec_bytes() + encoded_path + "\x1b\\".spec_bytes()
}

/// The escape sequence that deletes the image `id`.
pub open spec fn delete_one_sequence(id: usize) -> Seq<u8> {
    "\x1b_Ga=d,d=I,i=".spec_bytes() + decimal(id as nat) + "\x1b\\".spec_bytes()
}

/// The escape sequences that delete each of `ids`, in order.
pub open spec fn delete_sequences(ids: Seq<usize>) -> Seq<u8>
    decreases ids.len(),
{
    if ids.len() == 0 {
        Seq::empty()
    } else {
        delete_sequences(ids.drop_last()) + delete_one_sequence(ids.last())
    }
}

/// The escape sequence that deletes every image the terminal shows.
pub open spec fn delete_all_sequence() -> Seq<u8> {
    "\x1b_Ga=d,d=A\x1b\\".spec_bytes()
}

/// An image prepared for a precise area of the screen.
pub struct KittyImage<'i> {
    pub id: usize,
    pub data: ImageData<'i>,
    pub img_width: u32,
    pub img_height: u32,
    pub area: Area,
}

impl<'i> KittyImage<'i> {
    fn push_display_params(&self, out: &mut Vec<u8>, medium: &str)
        ensures
            final(out)@ == old(out)@ + display_params(self, medium),
    {
        push_str(out, "\x1b_Ga=T,f=");
        push_str(out, self.data.kitty_format());
        push_str(out, ",t=");
        push_str(out, medium);
        push_str(out, ",i=");
        push_decimal(out, self.id);
        push_str(out, ",s=");
        push_decimal(out, self.img_width as usize);
        push_str(out, ",v=");
        push_decimal(out, self.img_height as usize);
        push_str(out, ",c=");
        push_decimal(out, self.area.width as usize);
        push_str(out, ",r=");
        push_decimal(out, self.area.height as usize);
        proof {
            assert(final(out)@ =~= old(out)@ + display_params(self, medium));
        }
    }

    /// The escape sequences that carry the base64 text `encoded` of this
    /// image's pixels, in the order they are to be written.
    pub fn chunk_sequences(&self, encoded: &[u8]) -> (r: Vec<Vec<u8>>)
        ensures
            r@.len() == chunk_sequences_of(self, encoded@).len(),
            forall|i: int| 0 <= i < r@.len() ==> #[trigger] r@[i]@ == chunk_sequences_of(self, encoded@)[i],
    {
        let mut r: Vec<Vec<u8>> = Vec::new();
        let mut pos: usize = 0;
        let ghost mut done: Seq<Seq<u8>> = Seq::empty();
        proof {
            assert(encoded@.skip(0) =~= encoded@);
            assert(done + chunk_payloads(encoded@) =~= chunk_payloads(encoded@));
        }
        while encoded.len() - pos > CHUNK_SIZE
            invariant
                pos <= encoded@.len(),
                pos == 0 <==> done.len() == 0,
                chunk_payloads(encoded@) == done + chunk_payloads(encoded@.skip(pos as int)),
                r@.len() == done.len(),
                forall|i: int| 0 <= i < r@.len() ==> #[trigger] r@[i]@ == more_chunk_sequence(self, done[i]),
            decreases encoded@.len() - pos,
        {
            let mut s: Vec<u8> = Vec::new();
            self.push_display_params(&mut s, "d");
            push_str(&mut s, ",m=1;");
            push_bytes(&mut s, encoded, pos, pos + CHUNK_SIZE);
            push_str(&mut s, "\x1b\\");
            r.push(s);
            proof {
                let rest = encoded@.skip(pos as int);
                let payload = encoded@.subrange(pos as int, pos + CHUNK_SIZE);
                assert(rest.take(CHUNK_SIZE as int) =~= payload);
                assert(rest.skip(CHUNK_SIZE as int) =~= encoded@.skip(pos + CHUNK_SIZE));
                assert(done.push(payload) + chunk_payloads(encoded@.skip(pos + CHUNK_SIZE)) =~= done + (
                seq![payload] + chunk_payloads(encoded@.skip(pos + CHUNK_SIZE))));
                done = done.push(payload);
            }
            pos = pos + CHUNK_SIZE;
        }
        let mut s: Vec<u8> = Vec::new();
        if pos == 0 {
            self.push_display_params(&mut s, "d");
            push_str(&mut s, ",m=0;");
        } else {
            push_str(&mut s, "\x1b_Gm=0;");
        }
        push_bytes(&mut s, encoded, pos, encoded.len());
        push_str(&mut s, "\x1b\\");
        r.push(s);
        proof {
            assert(encoded@.subrange(pos as int, encoded@.len() as int) =~= encoded@.skip(pos as int));
            let all = chunk_payloads(encoded@);
            assert(all =~= done.push(encoded@.skip(pos as int)));
            assert forall|i: int| 0 <= i < r@.len() implies #[trigger] r@[i]@ == chunk_sequences_of(
                self,
                encoded@,
            )[i] by {
                if i + 1 < r@.len() {
                    assert(r@[i]@ == more_chunk_sequence(self, done[i]));
                }
                if r@.len() == 1 {
                    assert(done.len() == 0);
                }
            }
        }
        r
    }

    /// Sends the pixels inline: their base64 text, cut into chunks, each in
    /// an escape sequence of its own.
    pub fn print_with_chunks(&self) -> (r: Vec<Vec<u8>>)
        ensures
            r@.len() == chunk_sequences_of(self, base64_of(self.data.spec_bytes())).len(),
            forall|i: int| 0 <= i < r@.len() ==> #[trigger] r@[i]@ == chunk_sequences_of(
                self,
                base64_of(self.data.spec_bytes()),
            )[i],
    {
        let encoded = base64_encode(self.data.bytes());
        self.chunk_sequences(encoded.as_slice())
    }

    /// The escape sequence that shows this image from a file whose path has
    /// the base64 text `encoded_path`.
    pub fn temp_file_sequence(&self, encoded_path: &[u8]) -> (r: Vec<u8>)
        ensures
            r@ == temp_file_sequence_of(self, encoded_path@),
    {
        let mut s: Vec<u8> = Vec::new();
        self.push_display_params(&mut s, "t");
        push_str(&mut s, ";");
        push_bytes(&mut s, encoded_path, 0, encoded_path.len());
        push_str(&mut s, "\x1b\\");
        proof {
            assert(encoded_path@.subrange(0, encoded_path@.len() as int) =~= encoded_path@);
            assert(s@ =~= temp_file_sequence_of(self, encoded_path@));
        }
        s
    }

    /// Sends the pixels through a file: `path` names a file that already
    /// holds this image's raw pixels, and the one escape sequence returned
    /// carries the base64 text of that path.
    pub fn print_with_temp_file(&self, path: &str) -> (r: Vec<u8>)
        ensures
            r@ == temp_file_sequence_of(self, base64_of(path.spec_bytes())),
    {
        let encoded_path = base64_encode(path.as_bytes());
        self.temp_file_sequence(encoded_path.as_slice())
    }
}

/// The escape sequences that delete each of `ids`, in order.
pub fn delete_each(ids: &Vec<usize>) -> (r: Vec<u8>)
    ensures
        r@ == delete_sequences(ids@),
{
    let mut out: Vec<u8> = Vec::new();
    let mut i: usize = 0;
    while i < ids.len()
        invariant
            i <= ids@.len(),
            out@ == delete_sequences(ids@.take(i as int)),
        decreases ids@.len() - i,
    {
        push_str(&mut out, "\x1b_Ga=d,d=I,i=");
        push_decimal(&mut out, ids[i]);
        push_str(&mut out, "\x1b\\");
        proof {
            assert(ids@.take(i + 1).drop_last() =~= ids@.take(i as int));
            assert(out@ =~= delete_sequences(ids@.take(i + 1)));
        }
        i = i + 1;
    }
    proof {
        assert(ids@.take(i as int) =~= ids@);
    }
    out
}

/// The escape sequence that deletes every image the terminal shows.
pub fn delete_all() -> (r: Vec<u8>)
    ensures
        r@ == delete_all_sequence(),
{
    let mut out: Vec<u8> = Vec::new();
    push_str(&mut out, "\x1b_Ga=d,d=A\x1b\\");
    proof {
        assert(out@ =~= delete_all_sequence());
    }
    out
}

/// Cutting text into chunks loses and reorders nothing: the payloads, joined
/// in order, give the text back.
pub proof fn law_chunks_rebuild_text(encoded: Seq<u8>)
    ensures
        chunk_payloads(encoded).flatten() == encoded,
    decreases encoded.len(),
{
    if encoded.len() > CHUNK_SIZE {
        let rest = encoded.skip(CHUNK_SIZE as int);
        law_chunks_rebuild_text(rest);
        let all = chunk_payloads(encoded);
        assert(all.drop_first() =~= chunk_payloads(rest));
        assert(all.flatten() == all.first() + all.drop_first().flatten());
        assert(encoded.take(CHUNK_SIZE as int) + rest =~= encoded);
    } else {
        let all = chunk_payloads(encoded);
        assert(all.drop_first() =~= Seq::<Seq<u8>>::empty());
        assert(all.drop_first().flatten() =~= Seq::<u8>::empty());
        assert(all.flatten() == all.first() + all.drop_first().flatten());
        assert(encoded + Seq::<u8>::empty() =~= encoded);
    }
}

/// Every payload but the last holds exactly `CHUNK_SIZE` bytes, and the last
/// at most that many, and some when the text is not empty. There is a single
/// payload exactly when the text is no longer than `CHUNK_SIZE`.
pub proof fn law_chunk_sizes(encoded: Seq<u8>)
    ensures
        chunk_payloads(encoded).len() >= 1,
        forall|i: int|
            0 <= i < chunk_payloads(encoded).len() - 1 ==> #[trigger] chunk_payloads(encoded)[i].len()
                == CHUNK_SIZE,
        chunk_payloads(encoded).last().len() <= CHUNK_SIZE,
        encoded.len() > 0 ==> chunk_payloads(encoded).last().len() > 0,
        chunk_payloads(encoded).len() == 1 <==> encoded.len() <= CHUNK_SIZE,
    decreases encoded.len(),
{
    if encoded.len() > CHUNK_SIZE {
        let rest = encoded.skip(CHUNK_SIZE as int);
        law_chunk_sizes(rest);
        let all = chunk_payloads(encoded);
        assert forall|i: int| 0 <= i < all.len() - 1 implies #[trigger] all[i].len() == CHUNK_SIZE by {
            if i > 0 {
                assert(all[i] == chunk_payloads(rest)[i - 1]);
            }
        }
    }
}

} // verus!
