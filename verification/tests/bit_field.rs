use librarian::bit_field::BitField;
use librarian::bit_field::FieldIterator;

const BITS: usize = usize::BITS as usize;

fn words(field: &BitField) -> Vec<usize> {
    field.iter_fields().iter().map(|f| f.word()).collect()
}

#[test]
fn init_rounds_the_word_count_up() {
    assert_eq!(words(&BitField::init(0)).len(), 0);
    assert_eq!(words(&BitField::init(1)).len(), 1);
    assert_eq!(words(&BitField::init(BITS)).len(), 1);
    assert_eq!(words(&BitField::init(BITS + 1)).len(), 2);
    assert_eq!(words(&BitField::init(3 * BITS)), vec![0, 0, 0]);
}

#[test]
fn new_has_room_for_1024_bits() {
    assert_eq!(words(&BitField::new()).len(), 1024 / BITS);
    assert!(words(&BitField::new()).iter().all(|w| *w == 0));
}

#[test]
fn default_is_empty() {
    assert!(words(&BitField::default()).is_empty());
}

#[test]
fn reserve_init_appends_zero_words() {
    let mut field = BitField::init(BITS);
    field.reserve_init(BITS + 1);
    assert_eq!(words(&field), vec![0, 0, 0]);
    field.reserve_init(0);
    assert_eq!(words(&field).len(), 3);
}

#[test]
fn get_compares_the_shifted_word_with_one() {
    let mut field = BitField::init(4 * BITS);
    assert!(!field.get(0));
    assert!(!field.get(1));
    assert!(!field.get(2 * BITS));
    assert_eq!(words(&field), vec![0, 0, 0, 0]);
}

#[test]
fn set_leaves_zero_words_zero() {
    let mut field = BitField::init(4 * BITS);
    field.set(1, true);
    field.set(BITS + 1, false);
    assert_eq!(words(&field), vec![0, 0, 0, 0]);
    assert!(!field.get(1));
}

#[test]
fn field_walk_yields_one_answer_per_bit() {
    let field = BitField::init(1);
    let fields = field.iter_fields();
    assert_eq!(fields.len(), 1);
    let mut walk = FieldIterator::new(&fields[0]);
    let mut steps = 0;
    while let Some(bit) = walk.next() {
        assert!(!bit);
        steps += 1;
    }
    assert_eq!(steps, BITS);
    assert_eq!(walk.next(), None);
}
