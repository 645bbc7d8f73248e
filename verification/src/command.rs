//! Typed commands: how a command's arguments are laid out on the wire and how
//! its slice of the response is read back.

pub use crate::varint::VarInt;
use core::marker::PhantomData;
use vstd::prelude::*;
use vstd::slice::slice_subrange;

verus! {

/// How a command's arguments are written after the command byte.
pub trait PayloadPattern {
    /// Whether the value has a wire form at all.
    spec fn encodable(&self) -> bool;

    /// The bytes that follow the command byte.
    spec fn wire(&self) -> Seq<u8>;

    /// Tells at run time whether the value has a wire form.
    fn is_encodable(&self) -> (ok: bool)
        ensures
            ok == self.encodable(),
    ;

    /// Number of bytes of the wire form.
    fn len(&self) -> (n: usize)
        requires
            self.encodable(),
        ensures
            n == self.wire().len(),
    ;

    /// The wire form.
    fn bytes(&self) -> (out: Vec<u8>)
        requires
            self.encodable(),
        ensures
            out@ == self.wire(),
    ;
}

impl PayloadPattern for () {
    open spec fn encodable(&self) -> bool {
        true
    }

    open spec fn wire(&self) -> Seq<u8> {
        Seq::empty()
    }

    fn is_encodable(&self) -> (ok: bool) {
        true
    }

    fn len(&self) -> (n: usize) {
        0
    }

    fn bytes(&self) -> (out: Vec<u8>) {
        Vec::new()
    }
}

impl PayloadPattern for u8 {
    open spec fn encodable(&self) -> bool {
        true
    }

    open spec fn wire(&self) -> Seq<u8> {
        seq![*self]
    }

    fn is_encodable(&self) -> (ok: bool) {
        true
    }

    fn len(&self) -> (n: usize) {
        1
    }

    fn bytes(&self) -> (out: Vec<u8>) {
        let mut out = Vec::new();
        out.push(*self);
        out
    }
}

/// Sixteen bits travel low byte first.
impl PayloadPattern for u16 {
    open spec fn encodable(&self) -> bool {
        true
    }

    open spec fn wire(&self) -> Seq<u8> {
        seq![(*self % 256) as u8, (*self / 256) as u8]
    }

    fn is_encodable(&self) -> (ok: bool) {
        true
    }

    fn len(&self) -> (n: usize) {
        2
    }

    fn bytes(&self) -> (out: Vec<u8>) {
        let mut out = Vec::new();
        out.push((*self % 256) as u8);
        out.push((*self / 256) as u8);
        out
    }
}

/// A run of bytes travels behind its length, which has to fit in one byte.
impl<'a> PayloadPattern for &'a [u8] {
    open spec fn encodable(&self) -> bool {
        self@.len() <= 255
    }

    open spec fn wire(&self) -> Seq<u8> {
        seq![self@.len() as u8] + self@
    }

    fn is_encodable(&self) -> (ok: bool) {
        <[u8]>::len(self) <= 255
    }

    fn len(&self) -> (n: usize) {
        1 + <[u8]>::len(self)
    }

    fn bytes(&self) -> (out: Vec<u8>) {
        let n: usize = <[u8]>::len(self);
        let mut out = Vec::new();
        out.push(n as u8);
        out.extend_from_slice(self);
        out
    }
}

/// How a command's slice of the response is read.
pub trait ResponsePattern {
    /// What a reading yields; it may borrow from the response.
    type Output<'a>;

    /// Number of response bytes the command produces.
    spec fn width(&self) -> nat;

    /// Whether `out` is the reading of a region that starts with the
    /// command's bytes.
    spec fn decodes<'a>(&self, region: Seq<u8>, out: Self::Output<'a>) -> bool;

    /// Number of response bytes the command produces.
    fn len(&self) -> (n: usize)
        ensures
            n == self.width(),
    ;

    /// Reads the command's bytes at the front of `buf`.
    fn output<'a>(&self, buf: &'a [u8]) -> (out: Self::Output<'a>)
        requires
            buf@.len() >= self.width(),
        ensures
            self.decodes(buf@, out),
    ;
}

/// A response pattern whose reading stands on its own, without the buffer.
pub trait StaticResponsePattern: ResponsePattern {
    /// What a reading yields.
    type StaticOutput;

    /// The reading of a region that starts with the command's bytes.
    spec fn reading(&self, region: Seq<u8>) -> Self::StaticOutput;

    /// Reads the command's bytes at the front of `buf`.
    fn static_output(&self, buf: &[u8]) -> (out: Self::StaticOutput)
        requires
            buf@.len() >= self.width(),
        ensures
            out == self.reading(buf@),
    ;
}

impl ResponsePattern for () {
    type Output<'a> = ();

    open spec fn width(&self) -> nat {
        0
    }

    open spec fn decodes<'a>(&self, region: Seq<u8>, out: ()) -> bool {
        true
    }

    fn len(&self) -> (n: usize) {
        0
    }

    fn output<'a>(&self, _buf: &'a [u8]) -> (out: ()) {
        ()
    }
}

impl StaticResponsePattern for () {
    type StaticOutput = ();

    open spec fn reading(&self, region: Seq<u8>) -> () {
        ()
    }

    fn static_output(&self, _buf: &[u8]) -> (out: ()) {
        ()
    }
}

/// A response that is one value of type `T`.
#[derive(Debug)]
pub struct ScalarResponse<T>(PhantomData<T>);

impl<T> ScalarResponse<T> {
    pub fn new() -> (out: Self) {
        ScalarResponse(PhantomData)
    }
}

impl<T> Clone for ScalarResponse<T> {
    fn clone(&self) -> (out: Self) {
        ScalarResponse(PhantomData)
    }
}

impl ResponsePattern for ScalarResponse<u8> {
    type Output<'a> = u8;

    open spec fn width(&self) -> nat {
        1
    }

    open spec fn decodes<'a>(&self, region: Seq<u8>, out: u8) -> bool {
        out == region[0]
    }

    fn len(&self) -> (n: usize) {
        1
    }

    fn output<'a>(&self, buf: &'a [u8]) -> (out: u8) {
        buf[0]
    }
}

impl StaticResponsePattern for ScalarResponse<u8> {
    type StaticOutput = u8;

    open spec fn reading(&self, region: Seq<u8>) -> u8 {
        region[0]
    }

    fn static_output(&self, buf: &[u8]) -> (out: u8) {
        buf[0]
    }
}

/// A response that is a run of bytes of a length fixed beforehand.
#[derive(Clone, Copy, Debug)]
pub struct SliceResponse(usize);

impl SliceResponse {
    pub fn new(len: usize) -> (out: Self)
        ensures
            out.width() == len,
    {
        Self(len)
    }
}

impl ResponsePattern for SliceResponse {
    type Output<'a> = &'a [u8];

    closed spec fn width(&self) -> nat {
        self.0 as nat
    }

    open spec fn decodes<'a>(&self, region: Seq<u8>, out: &'a [u8]) -> bool {
        out@ == region.subrange(0, self.width() as int)
    }

    fn len(&self) -> (n: usize) {
        self.0
    }

    fn output<'a>(&self, buf: &'a [u8]) -> (out: &'a [u8]) {
        slice_subrange(buf, 0, self.0)
    }
}

/// The first byte of a command: the resource in the low six bits, the
/// opcode in the two above.
pub open spec fn command_byte(resource: u8, op: u8) -> u8 {
    resource | (op << 6)
}

/// What a command amounts to for the transport: the bytes it adds to a
/// request and the number of bytes it adds to the response.
pub struct CommandView {
    pub bytes: Seq<u8>,
    pub width: nat,
}

/// A command laid out for the wire: its bytes in a request, and the number
/// of bytes of its answer.
#[derive(Debug, PartialEq, Eq)]
pub struct Encoded {
    bytes: Vec<u8>,
    width: usize,
}

impl View for Encoded {
    type V = CommandView;

    closed spec fn view(&self) -> CommandView {
        CommandView { bytes: self.bytes@, width: self.width as nat }
    }
}

impl Encoded {
    /// The bytes of the command in a request.
    pub fn bytes(&self) -> (out: &[u8])
        ensures
            out@ == self@.bytes,
    {
        self.bytes.as_slice()
    }

    /// Number of bytes of the command in a request.
    pub fn len(&self) -> (out: usize)
        ensures
            out == self@.bytes.len(),
    {
        self.bytes.len()
    }

    /// Number of bytes of the answer.
    pub fn width(&self) -> (out: usize)
        ensures
            out == self@.width,
    {
        self.width
    }
}

/// One command for one resource.
pub struct Command<P, R> {
    pub(crate) resource: u8,
    pub(crate) cmd: u8,
    pub(crate) payload: P,
    pub(crate) response: R,
}

impl<P, R> Command<P, R> where P: PayloadPattern, R: ResponsePattern {
    /// The resource addressed.
    pub closed spec fn resource_id(&self) -> u8 {
        self.resource
    }

    /// The opcode.
    pub closed spec fn opcode(&self) -> u8 {
        self.cmd
    }

    /// The arguments.
    pub closed spec fn payload(&self) -> P {
        self.payload
    }

    /// The pattern of the response.
    pub closed spec fn response(&self) -> R {
        self.response
    }

    /// Whether the fields are in range: six bits of resource, two of opcode,
    /// and a payload that has a wire form.
    pub open spec fn wf(&self) -> bool {
        &&& self.resource_id() < 64
        &&& self.opcode() < 4
        &&& self.payload().encodable()
    }

    /// The bytes of the command in a request.
    pub open spec fn wire(&self) -> Seq<u8> {
        seq![command_byte(self.resource_id(), self.opcode())] + self.payload().wire()
    }

    pub open spec fn view(&self) -> CommandView {
        CommandView { bytes: self.wire(), width: self.response().width() }
    }

    pub fn new(resource: u8, cmd: u8, payload: P, response: R) -> (out: Self)
        ensures
            out.resource_id() == resource,
            out.opcode() == cmd,
            out.payload() == payload,
            out.response() == response,
    {
        Command { resource, cmd, payload, response }
    }

    /// The first byte on the wire.
    pub fn cmd_byte(&self) -> (b: u8)
        ensures
            b == command_byte(self.resource_id(), self.opcode()),
            self.resource_id() < 64 && self.opcode() < 4 ==> b == self.resource_id() + 64
                * self.opcode(),
    {
        let b: u8 = self.resource | (self.cmd << 6);
        proof {
            lemma_command_byte(self.resource, self.cmd);
        }
        b
    }

    /// Tells at run time whether the payload has a wire form.
    pub fn is_encodable(&self) -> (ok: bool)
        ensures
            ok == self.payload().encodable(),
    {
        self.payload.is_encodable()
    }

    /// Number of bytes of the payload alone.
    pub fn payload_len(&self) -> (n: usize)
        requires
            self.payload().encodable(),
        ensures
            n == self.payload().wire().len(),
    {
        self.payload.len()
    }

    /// Number of bytes the command adds to the response.
    pub fn response_len(&self) -> (n: usize)
        ensures
            n == self.response().width(),
    {
        self.response.len()
    }

    /// Gives up the command for its response pattern.
    pub fn into_response(self) -> (out: R)
        ensures
            out == self.response(),
    {
        self.response
    }

    /// Lays the command out for the wire.
    pub fn encode(&self) -> (out: Encoded)
        requires
            self.payload().encodable(),
        ensures
            out@ == self@,
    {
        Encoded { bytes: self.bytes(), width: self.response.len() }
    }

    /// The command as it stands in a request.
    pub fn bytes(&self) -> (out: Vec<u8>)
        requires
            self.payload().encodable(),
        ensures
            out@ == self.wire(),
            out@.len() == 1 + self.payload().wire().len(),
            out@[0] == command_byte(self.resource_id(), self.opcode()),
    {
        let mut out: Vec<u8> = Vec::new();
        out.push(self.cmd_byte());
        let mut tail = self.payload.bytes();
        out.append(&mut tail);
        out
    }
}

/// With six bits of resource and two of opcode the command byte holds both
/// side by side, and each is read back from it.
pub proof fn lemma_command_byte(resource: u8, op: u8)
    ensures
        resource < 64 && op < 4 ==> {
            &&& command_byte(resource, op) == resource + 64 * op
            &&& command_byte(resource, op) & 0x3f == resource
            &&& command_byte(resource, op) >> 6 == op
        },
{
    assert(resource < 64 && op < 4 ==> {
        &&& (resource | (op << 6)) == resource + 64 * op
        &&& (resource | (op << 6)) & 0x3f == resource
        &&& (resource | (op << 6)) >> 6 == op
    }) by (bit_vector);
}

/// A command takes its command byte and then its payload, nothing else.
pub proof fn lemma_command_wire<P: PayloadPattern, R: ResponsePattern>(c: Command<P, R>)
    ensures
        c.wire().len() == 1 + c.payload().wire().len(),
        c.wire()[0] == command_byte(c.resource_id(), c.opcode()),
        c.wire().skip(1) == c.payload().wire(),
        c.resource_id() < 64 && c.opcode() < 4 ==> c.wire()[0] == c.resource_id() + 64
            * c.opcode(),
{
    lemma_command_byte(c.resource_id(), c.opcode());
    assert(c.wire().skip(1) =~= c.payload().wire());
}

} // verus!
