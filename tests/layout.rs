use tbg_sim::layout::{
    calculate_buffer_size, faction_code_of, order_code_of, squad_offset, FIELD_FACTION, FIELD_HEALTH, FIELD_HEALTH_MAX,
    FIELD_ID, FIELD_IS_ALIVE, FIELD_IS_ROUTING, FIELD_MORALE, FIELD_ORDER_TYPE, FIELD_SIZE,
    FIELD_SUPPRESSION, FIELD_VX, FIELD_VY, FIELD_X, FIELD_Y, HEADER_SIZE, SQUAD_STRIDE,
};

#[test]
fn test_calculate_buffer_size() {
    assert_eq!(calculate_buffer_size(0), HEADER_SIZE);
    assert_eq!(calculate_buffer_size(1), HEADER_SIZE + SQUAD_STRIDE);
    assert_eq!(calculate_buffer_size(100), HEADER_SIZE + 100 * SQUAD_STRIDE);
}

#[test]
fn test_squad_offset() {
    assert_eq!(squad_offset(0), HEADER_SIZE);
    assert_eq!(squad_offset(1), HEADER_SIZE + SQUAD_STRIDE);
    assert_eq!(squad_offset(10), HEADER_SIZE + 10 * SQUAD_STRIDE);
}

#[test]
fn test_field_offsets_are_valid() {
    assert!(FIELD_ID < SQUAD_STRIDE);
    assert!(FIELD_X < SQUAD_STRIDE);
    assert!(FIELD_Y < SQUAD_STRIDE);
    assert!(FIELD_VX < SQUAD_STRIDE);
    assert!(FIELD_VY < SQUAD_STRIDE);
    assert!(FIELD_FACTION < SQUAD_STRIDE);
    assert!(FIELD_SIZE < SQUAD_STRIDE);
    assert!(FIELD_HEALTH < SQUAD_STRIDE);
    assert!(FIELD_HEALTH_MAX < SQUAD_STRIDE);
    assert!(FIELD_MORALE < SQUAD_STRIDE);
    assert!(FIELD_SUPPRESSION < SQUAD_STRIDE);
    assert!(FIELD_IS_ALIVE < SQUAD_STRIDE);
    assert!(FIELD_IS_ROUTING < SQUAD_STRIDE);
    assert!(FIELD_ORDER_TYPE < SQUAD_STRIDE);

    assert_eq!(SQUAD_STRIDE, FIELD_ORDER_TYPE + 1);
}

#[test]
fn three_squad_buffer_layout() {
    // three squads: a header, then records at 1, 15 and 29
    assert_eq!(calculate_buffer_size(3), 43);
    assert_eq!(squad_offset(0), 1);
    assert_eq!(squad_offset(1), 15);
    assert_eq!(squad_offset(2), 29);
    assert_eq!(squad_offset(2) + FIELD_ORDER_TYPE + 1, calculate_buffer_size(3));
}

#[test]
fn field_offsets_are_distinct_and_ordered() {
    let fields = [
        FIELD_ID,
        FIELD_X,
        FIELD_Y,
        FIELD_VX,
        FIELD_VY,
        FIELD_FACTION,
        FIELD_SIZE,
        FIELD_HEALTH,
        FIELD_HEALTH_MAX,
        FIELD_MORALE,
        FIELD_SUPPRESSION,
        FIELD_IS_ALIVE,
        FIELD_IS_ROUTING,
        FIELD_ORDER_TYPE,
    ];
    for (k, f) in fields.iter().enumerate() {
        assert_eq!(*f, k);
    }
}

#[test]
fn faction_codes_of_text() {
    assert_eq!(faction_code_of("Blue"), 0);
    assert_eq!(faction_code_of("Red"), 1);
    assert_eq!(faction_code_of("Unknown"), 0);
    assert_eq!(faction_code_of("Redd"), 0);
    assert_eq!(faction_code_of(""), 0);
}

#[test]
fn order_codes_of_text() {
    assert_eq!(order_code_of("Hold"), 0);
    assert_eq!(order_code_of("MoveTo(10.0,20.0)"), 1);
    assert_eq!(order_code_of("AttackMove(5.0,5.0)"), 2);
    assert_eq!(order_code_of("Retreat"), 3);
    assert_eq!(order_code_of("Unknown"), 0);
    assert_eq!(order_code_of("Retreating"), 0);
    assert_eq!(order_code_of("Move"), 0);
    assert_eq!(order_code_of(""), 0);
}

#[test]
fn test_faction_to_id() {
    assert_eq!(faction_code_of("Blue") as f32, 0.0);
    assert_eq!(faction_code_of("Red") as f32, 1.0);
    assert_eq!(faction_code_of("Unknown") as f32, 0.0);
}

#[test]
fn test_order_to_id() {
    assert_eq!(order_code_of("Hold") as f32, 0.0);
    assert_eq!(order_code_of("MoveTo(10.0,20.0)") as f32, 1.0);
    assert_eq!(order_code_of("AttackMove(5.0,5.0)") as f32, 2.0);
    assert_eq!(order_code_of("Retreat") as f32, 3.0);
    assert_eq!(order_code_of("Unknown") as f32, 0.0);
}
