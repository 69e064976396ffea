use capnp::private::layout::{
    PointerBuilder, PointerReader, StructBuilder, StructReader, StructSize,
};
use capnp::traits::{FromPointerBuilder, FromPointerReader};
use libsolver::api::{WireReq, WireReqKind, WireResp, WireRespKind};

const GRID: &str = "___|2__|_63\n3__|__5|4_1\n__1|__3|98_\n___|___|_9_\n___|538|___\n_3_|___|___\n_26|3__|5__\n5_3|7__|__8\n47_|__1|___";

const ROOT: StructSize = StructSize { data: 1, pointers: 1 };
const WITH_ID: StructSize = StructSize { data: 1, pointers: 0 };
const WITH_TEXT: StructSize = StructSize { data: 0, pointers: 1 };

struct Root<'a>(StructReader<'a>);

impl<'a> FromPointerReader<'a> for Root<'a> {
    fn get_from_pointer(
        reader: &PointerReader<'a>,
        default: Option<&'a [capnp::Word]>,
    ) -> capnp::Result<Self> {
        Ok(Root(reader.get_struct(default)?))
    }
}

struct RootBuilder<'a>(StructBuilder<'a>);

impl<'a> FromPointerBuilder<'a> for RootBuilder<'a> {
    fn init_pointer(builder: PointerBuilder<'a>, _length: u32) -> Self {
        RootBuilder(builder.init_struct(ROOT))
    }

    fn get_from_pointer(
        builder: PointerBuilder<'a>,
        default: Option<&'a [capnp::Word]>,
    ) -> capnp::Result<Self> {
        Ok(RootBuilder(builder.get_struct(ROOT, default)?))
    }
}

fn written(message: &capnp::message::Builder<capnp::message::HeapAllocator>) -> Vec<u8> {
    let mut bytes = Vec::new();
    capnp::serialize::write_message(&mut bytes, message).unwrap();
    bytes
}

fn built_with_id(id: u32, which: u16, answer: u16, body_id: u32) -> Vec<u8> {
    let mut message = capnp::message::Builder::new_default();
    {
        let root: RootBuilder = message.init_root();
        root.0.set_data_field::<u32>(0, id);
        root.0.set_data_field::<u16>(2, which);
        root.0.set_data_field::<u16>(3, answer);
        let body = root.0.get_pointer_field(0).init_struct(WITH_ID);
        body.set_data_field::<u32>(0, body_id);
    }
    written(&message)
}

fn built_with_text(id: u32, which: u16, answer: u16, text: &str) -> Vec<u8> {
    let mut message = capnp::message::Builder::new_default();
    {
        let root: RootBuilder = message.init_root();
        root.0.set_data_field::<u32>(0, id);
        root.0.set_data_field::<u16>(2, which);
        root.0.set_data_field::<u16>(3, answer);
        let body = root.0.get_pointer_field(0).init_struct(WITH_TEXT);
        body.get_pointer_field(0).set_text(text.into());
    }
    written(&message)
}

fn built_without_body(id: u32, which: u16, answer: u16, code: u8) -> Vec<u8> {
    let mut message = capnp::message::Builder::new_default();
    {
        let root: RootBuilder = message.init_root();
        root.0.set_data_field::<u32>(0, id);
        root.0.set_data_field::<u16>(2, which);
        if which == 0 {
            root.0.set_data_field::<u16>(3, answer);
        } else {
            root.0.set_data_field::<u8>(6, code);
        }
        root.0.get_pointer_field(0).clear();
    }
    written(&message)
}

fn read(bytes: &[u8]) -> capnp::message::Reader<capnp::serialize::OwnedSegments> {
    capnp::serialize::read_message(bytes, capnp::message::ReaderOptions::new()).unwrap()
}

#[test]
fn a_builder_of_the_format_writes_the_same_requests() {
    let create = WireReq { id: 17, kind: WireReqKind::CreateSolver { grid: GRID.to_string() } };
    assert_eq!(create.to_bytes(), built_with_text(17, 0, 0, GRID));
    let empty = WireReq { id: 0, kind: WireReqKind::CreateSolver { grid: String::new() } };
    assert_eq!(empty.to_bytes(), built_with_text(0, 0, 0, ""));
    let solve: WireReq<String> = WireReq { id: 18, kind: WireReqKind::Solve { id: 3 } };
    assert_eq!(solve.to_bytes(), built_with_id(18, 1, 0, 3));
    let destroy: WireReq<String> =
        WireReq { id: u32::MAX, kind: WireReqKind::Destroy { id: 0x01020304 } };
    assert_eq!(destroy.to_bytes(), built_with_id(u32::MAX, 2, 0, 0x01020304));
}

#[test]
fn a_builder_of_the_format_writes_the_same_responses() {
    let created: WireResp<String> = WireResp { id: 5, kind: WireRespKind::SolverCreated { id: 9 } };
    assert_eq!(created.to_bytes(), built_with_id(5, 0, 0, 9));
    let solved = WireResp { id: 6, kind: WireRespKind::SolverResult { solution: GRID.to_string() } };
    assert_eq!(solved.to_bytes(), built_with_text(6, 0, 1, GRID));
    let destroyed: WireResp<String> = WireResp { id: 7, kind: WireRespKind::Destroyed };
    assert_eq!(destroyed.to_bytes(), built_without_body(7, 0, 2, 0));
    let failed: WireResp<String> = WireResp { id: 8, kind: WireRespKind::Failed { code: 3 } };
    assert_eq!(failed.to_bytes(), built_without_body(8, 1, 0, 3));
}

#[test]
fn what_a_builder_of_the_format_writes_is_read() {
    let req = WireReq::from_bytes(&built_with_text(1, 0, 0, "abc")).unwrap();
    assert_eq!(req.id, 1);
    assert!(matches!(req.kind, WireReqKind::CreateSolver { grid } if grid == "abc"));
    let req = WireReq::from_bytes(&built_with_id(2, 2, 0, 77)).unwrap();
    assert_eq!(req.id, 2);
    assert!(matches!(req.kind, WireReqKind::Destroy { id: 77 }));
    let resp = WireResp::from_bytes(&built_with_text(3, 0, 1, "solved")).unwrap();
    assert_eq!(resp.id, 3);
    assert!(matches!(resp.kind, WireRespKind::SolverResult { solution } if solution == "solved"));
    let resp = WireResp::from_bytes(&built_without_body(4, 1, 0, 2)).unwrap();
    assert_eq!(resp.id, 4);
    assert!(matches!(resp.kind, WireRespKind::Failed { code: 2 }));
}

#[test]
fn a_reader_of_the_format_finds_the_fields_of_a_request() {
    let create = WireReq { id: 17, kind: WireReqKind::CreateSolver { grid: GRID.to_string() } };
    let message = read(&create.to_bytes());
    let root: Root = message.get_root().unwrap();
    assert_eq!(root.0.get_data_field::<u32>(0), 17);
    assert_eq!(root.0.get_data_field::<u16>(2), 0);
    let body = root.0.get_pointer_field(0).get_struct(None).unwrap();
    let grid = body.get_pointer_field(0).get_text(None).unwrap();
    assert_eq!(grid.to_str().unwrap(), GRID);

    let solve: WireReq<String> = WireReq { id: 18, kind: WireReqKind::Solve { id: 3 } };
    let message = read(&solve.to_bytes());
    let root: Root = message.get_root().unwrap();
    assert_eq!(root.0.get_data_field::<u32>(0), 18);
    assert_eq!(root.0.get_data_field::<u16>(2), 1);
    let body = root.0.get_pointer_field(0).get_struct(None).unwrap();
    assert_eq!(body.get_data_field::<u32>(0), 3);
}

#[test]
fn a_reader_of_the_format_finds_the_fields_of_a_response() {
    let solved =
        WireResp { id: 6, kind: WireRespKind::SolverResult { solution: "gr\u{fc}n".to_string() } };
    let message = read(&solved.to_bytes());
    let root: Root = message.get_root().unwrap();
    assert_eq!(root.0.get_data_field::<u32>(0), 6);
    assert_eq!(root.0.get_data_field::<u16>(2), 0);
    assert_eq!(root.0.get_data_field::<u16>(3), 1);
    let body = root.0.get_pointer_field(0).get_struct(None).unwrap();
    let solution = body.get_pointer_field(0).get_text(None).unwrap();
    assert_eq!(solution.to_str().unwrap(), "gr\u{fc}n");

    let failed: WireResp<String> = WireResp { id: 8, kind: WireRespKind::Failed { code: 3 } };
    let message = read(&failed.to_bytes());
    let root: Root = message.get_root().unwrap();
    assert_eq!(root.0.get_data_field::<u32>(0), 8);
    assert_eq!(root.0.get_data_field::<u16>(2), 1);
    assert_eq!(root.0.get_data_field::<u8>(6), 3);
    assert!(root.0.get_pointer_field(0).is_null());
}
