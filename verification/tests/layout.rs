use render_gl::data::layout_of;
use render_gl::data::record_size;
use render_gl::data::AttributeDescriptor;
use render_gl::data::ComponentType;
use render_gl::data::FieldDesc;

fn float_field(components: usize) -> FieldDesc {
    FieldDesc { components, ty: ComponentType::Float }
}

#[test]
fn layout_position_color() {
    // A record of two float triples: position, then color.
    let fields = vec![float_field(3), float_field(3)];
    let descs = layout_of(&fields);
    assert_eq!(descs.len(), 2);
    assert_eq!(
        descs[0],
        AttributeDescriptor {
            location: 0,
            components: 3,
            ty: ComponentType::Float,
            normalized: false,
            stride: 24,
            offset: 0,
        }
    );
    assert_eq!(
        descs[1],
        AttributeDescriptor {
            location: 1,
            components: 3,
            ty: ComponentType::Float,
            normalized: false,
            stride: 24,
            offset: 12,
        }
    );
}

#[test]
fn layout_offsets_increase_and_pack() {
    let fields = vec![float_field(2), float_field(3), float_field(1)];
    let descs = layout_of(&fields);
    assert_eq!(descs.len(), 3);
    let stride = record_size(&fields);
    assert_eq!(stride, 24);
    assert_eq!(descs[0].offset, 0);
    assert_eq!(descs[1].offset, 8);
    assert_eq!(descs[2].offset, 20);
    for w in descs.windows(2) {
        assert!(w[0].offset < w[1].offset);
    }
    let last = &descs[2];
    assert_eq!(last.offset + last.components * 4, stride);
    for (i, d) in descs.iter().enumerate() {
        assert_eq!(d.location, i);
        assert_eq!(d.stride, stride);
        assert!(!d.normalized);
    }
}

#[test]
fn layout_of_empty_record() {
    let fields: Vec<FieldDesc> = Vec::new();
    let descs = layout_of(&fields);
    assert!(descs.is_empty());
    assert_eq!(record_size(&fields), 0);
}

#[test]
fn layout_single_field() {
    let fields = vec![float_field(4)];
    let descs = layout_of(&fields);
    assert_eq!(descs.len(), 1);
    assert_eq!(descs[0].offset, 0);
    assert_eq!(descs[0].stride, 16);
    assert_eq!(descs[0].components, 4);
}
