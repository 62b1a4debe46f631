use lan_mouse::position::{
    to_capture_pos, to_proto_pos, ClientPosition, Position, ProtoPosition,
};

#[test]
fn sides_keep_their_names() {
    assert_eq!(to_capture_pos(ClientPosition::Left), Position::Left);
    assert_eq!(to_capture_pos(ClientPosition::Right), Position::Right);
    assert_eq!(to_capture_pos(ClientPosition::Top), Position::Top);
    assert_eq!(to_capture_pos(ClientPosition::Bottom), Position::Bottom);
    assert_eq!(to_proto_pos(Position::Left), ProtoPosition::Left);
    assert_eq!(to_proto_pos(Position::Right), ProtoPosition::Right);
    assert_eq!(to_proto_pos(Position::Top), ProtoPosition::Top);
    assert_eq!(to_proto_pos(Position::Bottom), ProtoPosition::Bottom);
}

#[test]
fn opposite_sides_lie_across() {
    for (a, b) in [
        (Position::Left, Position::Right),
        (Position::Top, Position::Bottom),
    ] {
        assert_eq!(a.opposite(), b);
        assert_eq!(b.opposite(), a);
        assert_eq!(a.opposite().opposite(), a);
    }
}
