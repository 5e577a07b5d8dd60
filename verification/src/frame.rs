//! The request frame: four byte strings, each closed by one zero byte, that
//! the supervisor writes to the helper's standard input.

use vstd::prelude::*;
use vstd::string::StringSliceAdditionalSpecFns;

verus! {

/// What a request asks for.
#[derive(Debug, Clone, Copy, PartialEq, Eq, Structural)]
pub enum Kind {
    /// The bytes of a file.
    File,
    /// The listing of a directory.
    Dir,
}

/// A request as the helper reads it from a frame.
#[derive(Debug, Clone, PartialEq, Eq)]
pub struct Request {
    pub username: Vec<u8>,
    pub password: Vec<u8>,
    pub path: Vec<u8>,
    pub kind: Kind,
    /// Fields that followed the fourth and were left aside.
    pub surplus: usize,
}

/// Why no request could be read from a buffer.
#[derive(Debug, Clone, Copy, PartialEq, Eq, Structural)]
pub enum FrameError {
    /// The buffer holds fewer than three zero bytes: more input is due.
    Incomplete,
    /// Fewer than three fields are not empty.
    TooFewFields,
    /// Three fields are there, the tag is not.
    MissingTag,
}

/// A request as plain values.
pub struct RequestView {
    pub username: Seq<u8>,
    pub password: Seq<u8>,
    pub path: Seq<u8>,
    pub kind: Kind,
    pub surplus: nat,
}

impl View for Request {
    type V = RequestView;

    open spec fn view(&self) -> RequestView {
        RequestView {
            username: self.username@,
            password: self.password@,
            path: self.path@,
            kind: self.kind,
            surplus: self.surplus as nat,
        }
    }
}

/// The tag of a directory request, `DIR`.
pub open spec fn dir_tag() -> Seq<u8> {
    seq![68u8, 73u8, 82u8]
}

/// The tag of a file request, `FIL`.
pub open spec fn file_tag() -> Seq<u8> {
    seq![70u8, 73u8, 76u8]
}

/// What a tag asks for: a directory where it is `DIR`, a file for any other.
pub open spec fn kind_of_tag(tag: Seq<u8>) -> Kind {
    if tag == dir_tag() {
        Kind::Dir
    } else {
        Kind::File
    }
}

/// The frame of four fields.
pub open spec fn frame_of(username: Seq<u8>, password: Seq<u8>, path: Seq<u8>, tag: Seq<u8>) -> Seq<
    u8,
> {
    username + seq![0u8] + password + seq![0u8] + path + seq![0u8] + tag + seq![0u8]
}

/// The number of zero bytes in `bytes`.
pub open spec fn zero_count(bytes: Seq<u8>) -> nat
    decreases bytes.len(),
{
    if bytes.len() == 0 {
        0
    } else {
        zero_count(bytes.drop_last()) + if bytes.last() == 0u8 {
            1nat
        } else {
            0nat
        }
    }
}

/// `piece` as a list of fields: itself where it is not empty, else nothing.
pub open spec fn kept(piece: Seq<u8>) -> Seq<Seq<u8>> {
    if piece.len() == 0 {
        Seq::empty()
    } else {
        seq![piece]
    }
}

/// The fields of `rest`, read after the bytes `pending` of an open field:
/// the pieces between zero bytes, in order, without the empty ones.
pub open spec fn fields_after(pending: Seq<u8>, rest: Seq<u8>) -> Seq<Seq<u8>>
    decreases rest.len(),
{
    if rest.len() == 0 {
        kept(pending)
    } else if rest[0] == 0u8 {
        kept(pending) + fields_after(Seq::empty(), rest.skip(1))
    } else {
        fields_after(pending.push(rest[0]), rest.skip(1))
    }
}

/// The fields of a buffer: the pieces between its zero bytes, in order,
/// without the empty ones.
pub open spec fn fields(bytes: Seq<u8>) -> Seq<Seq<u8>> {
    fields_after(Seq::empty(), bytes)
}

/// What a buffer is read as: the first four fields are the request, and a
/// buffer with too few zero bytes or too few fields is none.
pub open spec fn parsed(bytes: Seq<u8>) -> Result<RequestView, FrameError> {
    let list = fields(bytes);
    if zero_count(bytes) < 3 {
        Err(FrameError::Incomplete)
    } else if list.len() < 3 {
        Err(FrameError::TooFewFields)
    } else if list.len() == 3 {
        Err(FrameError::MissingTag)
    } else {
        Ok(
            RequestView {
                username: list[0],
                password: list[1],
                path: list[2],
                kind: kind_of_tag(list[3]),
                surplus: (list.len() - 4) as nat,
            },
        )
    }
}

/// No byte of `bytes` is zero.
pub open spec fn zero_free(bytes: Seq<u8>) -> bool {
    forall|i: int| 0 <= i < bytes.len() ==> bytes[i] != 0u8
}

/// The views of a list of byte strings.
pub open spec fn views(list: Seq<Vec<u8>>) -> Seq<Seq<u8>> {
    Seq::new(list.len(), |i: int| list[i]@)
}

impl Kind {
    /// The tag that stands for this kind in a frame.
    pub open spec fn spec_tag(self) -> Seq<u8> {
        match self {
            Kind::File => file_tag(),
            Kind::Dir => dir_tag(),
        }
    }

    /// The tag that stands for this kind in a frame.
    pub fn tag(self) -> (tag: Vec<u8>)
        ensures
            tag@ == self.spec_tag(),
    {
        let mut tag: Vec<u8> = Vec::new();
        match self {
            Kind::File => {
                tag.push(70u8);
                tag.push(73u8);
                tag.push(76u8);
                assert(tag@ =~= file_tag());
            },
            Kind::Dir => {
                tag.push(68u8);
                tag.push(73u8);
                tag.push(82u8);
                assert(tag@ =~= dir_tag());
            },
        }
        tag
    }

    /// Reads a tag: `DIR` asks for a directory, every other tag for a file.
    pub fn of_tag(tag: &[u8]) -> (kind: Kind)
        ensures
            kind == kind_of_tag(tag@),
    {
        if tag.len() == 3 && tag[0] == 68u8 && tag[1] == 73u8 && tag[2] == 82u8 {
            assert(tag@ =~= dir_tag());
            Kind::Dir
        } else {
            assert(tag@ != dir_tag()) by {
                if tag@ == dir_tag() {
                    assert(dir_tag().len() == 3);
                    assert(dir_tag()[0] == 68u8 && dir_tag()[1] == 73u8 && dir_tag()[2] == 82u8);
                }
            }
            Kind::File
        }
    }
}

/// Appends the bytes of `piece` and one zero byte to `frame`.
fn push_field(frame: &mut Vec<u8>, piece: &[u8])
    ensures
        final(frame)@ == old(frame)@ + piece@ + seq![0u8],
{
    frame.extend_from_slice(piece);
    frame.push(0u8);
}

/// The first three fields of a frame: user name, password and path, each
/// followed by one zero byte.
pub fn build_partial_input(usern: &str, passw: &str, path: &str) -> (input: Vec<u8>)
    ensures
        input@ == usern.spec_bytes() + seq![0u8] + passw.spec_bytes() + seq![0u8]
            + path.spec_bytes() + seq![0u8],
{
    let mut input: Vec<u8> = Vec::new();
    push_field(&mut input, usern.as_bytes());
    push_field(&mut input, passw.as_bytes());
    push_field(&mut input, path.as_bytes());
    assert(input@ =~= usern.spec_bytes() + seq![0u8] + passw.spec_bytes() + seq![0u8]
        + path.spec_bytes() + seq![0u8]);
    input
}

/// The whole frame of a request for `path` on behalf of `usern`.
pub fn build_input(usern: &str, passw: &str, path: &str, kind: Kind) -> (input: Vec<u8>)
    ensures
        input@ == frame_of(
            usern.spec_bytes(),
            passw.spec_bytes(),
            path.spec_bytes(),
            kind.spec_tag(),
        ),
{
    let mut input = build_partial_input(usern, passw, path);
    let tag = kind.tag();
    push_field(&mut input, tag.as_slice());
    input
}

/// Counts the zero bytes of a buffer.
pub fn count_zero_bytes(buf: &[u8]) -> (count: usize)
    ensures
        count == zero_count(buf@),
{
    let mut count: usize = 0;
    let mut i: usize = 0;
    while i < buf.len()
        invariant
            i <= buf.len(),
            count <= i,
            count == zero_count(buf@.take(i as int)),
        decreases buf.len() - i,
    {
        assert(buf@.take(i + 1).drop_last() =~= buf@.take(i as int));
        if buf[i] == 0u8 {
            count = count + 1;
        }
        i = i + 1;
    }
    assert(buf@.take(i as int) =~= buf@);
    count
}

/// Whether a buffer holds enough of a frame to be read: at least three zero
/// bytes.
pub fn frame_complete(buf: &[u8]) -> (complete: bool)
    ensures
        complete == (zero_count(buf@) >= 3),
{
    count_zero_bytes(buf) > 2
}

/// Splits a buffer at its zero bytes and keeps the pieces that are not
/// empty, in order.
pub fn take_cstrings(buf: &[u8]) -> (list: Vec<Vec<u8>>)
    ensures
        views(list@) == fields(buf@),
{
    let mut list: Vec<Vec<u8>> = Vec::new();
    let mut pending: Vec<u8> = Vec::new();
    let mut i: usize = 0;
    assert(views(list@) =~= Seq::<Seq<u8>>::empty());
    assert(buf@.skip(0) =~= buf@);
    while i < buf.len()
        invariant
            i <= buf.len(),
            fields(buf@) == views(list@) + fields_after(pending@, buf@.skip(i as int)),
        decreases buf.len() - i,
    {
        let ghost rest = buf@.skip(i as int);
        let ghost before = views(list@);
        assert(rest[0] == buf@[i as int]);
        assert(rest.skip(1) =~= buf@.skip(i + 1));
        let ghost open = pending@;
        if buf[i] == 0u8 {
            if pending.len() > 0 {
                list.push(pending);
                pending = Vec::new();
                assert(views(list@) =~= before + kept(open));
            } else {
                assert(before + kept(open) =~= before);
            }
            assert(pending@ =~= Seq::<u8>::empty());
            assert(before + (kept(open) + fields_after(Seq::empty(), rest.skip(1))) =~= (before
                + kept(open)) + fields_after(Seq::empty(), rest.skip(1)));
        } else {
            pending.push(buf[i]);
        }
        i = i + 1;
    }
    assert(buf@.skip(i as int).len() == 0);
    let ghost before = views(list@);
    if pending.len() > 0 {
        let ghost piece = pending@;
        list.push(pending);
        assert(views(list@) =~= before + kept(piece));
    } else {
        assert(before + kept(pending@) =~= before);
    }
    list
}

/// Reads a request from a buffer. The buffer must hold three zero bytes at
/// least; of its fields that are not empty the first four are the user name,
/// the password, the path and the tag, and the others are counted and left
/// aside.
pub fn parse_frame(buf: &[u8]) -> (result: Result<Request, FrameError>)
    ensures
        match result {
            Ok(request) => parsed(buf@) == Ok::<RequestView, FrameError>(request@),
            Err(e) => parsed(buf@) == Err::<RequestView, FrameError>(e),
        },
{
    if !frame_complete(buf) {
        return Err(FrameError::Incomplete);
    }
    let mut list = take_cstrings(buf);
    let ghost all = fields(buf@);
    assert(list@.len() == all.len());
    if list.len() < 3 {
        return Err(FrameError::TooFewFields);
    }
    if list.len() == 3 {
        return Err(FrameError::MissingTag);
    }
    let surplus = list.len() - 4;
    assert(views(list@)[0] == list@[0]@);
    assert(views(list@)[1] == list@[1]@);
    assert(views(list@)[2] == list@[2]@);
    assert(views(list@)[3] == list@[3]@);
    let username = list.remove(0);
    let password = list.remove(0);
    let path = list.remove(0);
    let tag = list.remove(0);
    let kind = Kind::of_tag(tag.as_slice());
    Ok(Request { username, password, path, kind, surplus })
}

/// The zero bytes of two buffers add up.
pub proof fn lemma_zero_count_concat(a: Seq<u8>, b: Seq<u8>)
    ensures
        zero_count(a + b) == zero_count(a) + zero_count(b),
    decreases b.len(),
{
    if b.len() == 0 {
        assert(a + b =~= a);
    } else {
        lemma_zero_count_concat(a, b.drop_last());
        assert((a + b).drop_last() =~= a + b.drop_last());
    }
}

/// A buffer without zero bytes counts none.
pub proof fn lemma_zero_count_zero_free(a: Seq<u8>)
    requires
        zero_free(a),
    ensures
        zero_count(a) == 0,
    decreases a.len(),
{
    if a.len() > 0 {
        lemma_zero_count_zero_free(a.drop_last());
    }
}

/// A buffer without zero bytes is one field, together with what was pending.
pub proof fn lemma_fields_zero_free(pending: Seq<u8>, a: Seq<u8>)
    requires
        zero_free(a),
    ensures
        fields_after(pending, a) == kept(pending + a),
    decreases a.len(),
{
    if a.len() == 0 {
        assert(pending + a =~= pending);
    } else {
        lemma_fields_zero_free(pending.push(a[0]), a.skip(1));
        assert(pending.push(a[0]) + a.skip(1) =~= pending + a);
    }
}

/// A zero byte parts a buffer: the fields before it are followed by the
/// fields after it.
pub proof fn lemma_fields_split(pending: Seq<u8>, a: Seq<u8>, b: Seq<u8>)
    ensures
        fields_after(pending, a + seq![0u8] + b) == fields_after(pending, a) + fields(b),
    decreases a.len(),
{
    let whole = a + seq![0u8] + b;
    if a.len() == 0 {
        assert(whole.skip(1) =~= b);
    } else {
        assert(whole.skip(1) =~= a.skip(1) + seq![0u8] + b);
        if a[0] == 0u8 {
            lemma_fields_split(Seq::empty(), a.skip(1), b);
            assert(kept(pending) + (fields_after(Seq::empty(), a.skip(1)) + fields(b)) =~= (kept(
                pending,
            ) + fields_after(Seq::empty(), a.skip(1))) + fields(b));
        } else {
            lemma_fields_split(pending.push(a[0]), a.skip(1), b);
        }
    }
}

/// A frame is read as it was written: four fields that are not empty and
/// hold no zero byte come back from their frame, in order, and the frame holds
/// four zero bytes.
pub proof fn lemma_frame_fields(username: Seq<u8>, password: Seq<u8>, path: Seq<u8>, tag: Seq<u8>)
    requires
        username.len() > 0 && zero_free(username),
        password.len() > 0 && zero_free(password),
        path.len() > 0 && zero_free(path),
        tag.len() > 0 && zero_free(tag),
    ensures
        fields(frame_of(username, password, path, tag)) == seq![username, password, path, tag],
        zero_count(frame_of(username, password, path, tag)) == 4,
{
    let zero = seq![0u8];
    let e = Seq::<u8>::empty();
    let t = tag + zero;
    let pt = path + zero + t;
    let ppt = password + zero + pt;
    let all = username + zero + ppt;
    assert(all =~= frame_of(username, password, path, tag));
    assert(t =~= tag + zero + e);
    lemma_fields_split(e, tag, e);
    lemma_fields_split(e, path, t);
    lemma_fields_split(e, password, pt);
    lemma_fields_split(e, username, ppt);
    lemma_fields_zero_free(e, tag);
    lemma_fields_zero_free(e, path);
    lemma_fields_zero_free(e, password);
    lemma_fields_zero_free(e, username);
    assert(e + tag =~= tag);
    assert(e + path =~= path);
    assert(e + password =~= password);
    assert(e + username =~= username);
    assert(fields(e) =~= Seq::<Seq<u8>>::empty());
    assert(fields(all) =~= seq![username, password, path, tag]);
    assert(zero_count(zero) == 1) by {
        assert(zero.drop_last() =~= e);
        assert(zero.last() == 0u8);
        assert(zero_count(e) == 0);
        reveal_with_fuel(zero_count, 2);
    }
    lemma_zero_count_zero_free(tag);
    lemma_zero_count_zero_free(path);
    lemma_zero_count_zero_free(password);
    lemma_zero_count_zero_free(username);
    lemma_zero_count_concat(tag, zero);
    lemma_zero_count_concat(path, zero);
    lemma_zero_count_concat(path + zero, t);
    lemma_zero_count_concat(password, zero);
    lemma_zero_count_concat(password + zero, pt);
    lemma_zero_count_concat(username, zero);
    lemma_zero_count_concat(username + zero, ppt);
}

/// What the supervisor frames, the helper reads: the frame of a request whose
/// user name, password and path are not empty and hold no zero byte is read
/// as that request, with nothing left aside.
pub proof fn lemma_request_round_trip(
    username: Seq<u8>,
    password: Seq<u8>,
    path: Seq<u8>,
    kind: Kind,
)
    requires
        username.len() > 0 && zero_free(username),
        password.len() > 0 && zero_free(password),
        path.len() > 0 && zero_free(path),
    ensures
        parsed(frame_of(username, password, path, kind.spec_tag())) == Ok::<
            RequestView,
            FrameError,
        >(RequestView { username, password, path, kind, surplus: 0 }),
{
    let tag = kind.spec_tag();
    assert(tag.len() == 3);
    assert(zero_free(tag));
    assert(file_tag() != dir_tag()) by {
        assert(file_tag()[0] != dir_tag()[0]);
    }
    lemma_frame_fields(username, password, path, tag);
}

} // verus!
