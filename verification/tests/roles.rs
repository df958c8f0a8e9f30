use toucan::role::ItemDataRole;

#[test]
fn role_values() {
    assert_eq!(ItemDataRole::DisplayRole.to_i32(), 0);
    assert_eq!(ItemDataRole::EditRole.to_i32(), 2);
    assert_eq!(ItemDataRole::SizeTipRole.to_i32(), 13);
    assert_eq!(ItemDataRole::UserRole.to_i32(), 0x100);
    assert_eq!(ItemDataRole::NodeLabelRole.to_i32(), 0x101);
    assert_eq!(ItemDataRole::FieldLabelRole.to_i32(), 0x102);
    assert_eq!(ItemDataRole::FieldCountRole.to_i32(), 0x103);
    assert_eq!(ItemDataRole::UnknownRole.to_i32(), 0x7fffffff);
}

#[test]
fn roles_from_values() {
    assert_eq!(ItemDataRole::from_i32(0), Some(ItemDataRole::DisplayRole));
    assert_eq!(ItemDataRole::from_i32(0x102), Some(ItemDataRole::FieldLabelRole));
    assert_eq!(ItemDataRole::from_i32(14), None);
    assert_eq!(ItemDataRole::from_i32(-1), None);
    assert_eq!(ItemDataRole::from_i32_or_default(999), ItemDataRole::UnknownRole);
    assert_eq!(ItemDataRole::from_i32_or_default(2), ItemDataRole::EditRole);
    assert_eq!(ItemDataRole::default(), ItemDataRole::UnknownRole);
}

#[test]
fn role_round_trip() {
    let all = [
        ItemDataRole::DisplayRole,
        ItemDataRole::DecorationRole,
        ItemDataRole::EditRole,
        ItemDataRole::ToolTipRole,
        ItemDataRole::StatusTipRole,
        ItemDataRole::WhatsThisRole,
        ItemDataRole::FontRole,
        ItemDataRole::TextAlignmentRole,
        ItemDataRole::BackgroundRole,
        ItemDataRole::ForegroundRole,
        ItemDataRole::CheckStateRole,
        ItemDataRole::AccessibleTextRole,
        ItemDataRole::AccessibleDescriptionRole,
        ItemDataRole::SizeTipRole,
        ItemDataRole::UserRole,
        ItemDataRole::NodeLabelRole,
        ItemDataRole::FieldLabelRole,
        ItemDataRole::FieldCountRole,
        ItemDataRole::UnknownRole,
    ];
    for r in all {
        assert_eq!(ItemDataRole::from_i32(r.to_i32()), Some(r));
    }
}
