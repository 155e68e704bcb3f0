use minigrep::cache::{generate_workout, Cacher, Workout};
use minigrep::matrix::search_matrix;
use minigrep::outline::outline;
use minigrep::text::chars_of;

fn grid() -> Vec<Vec<i32>> {
    vec![
        vec![1, 4, 7, 11, 15],
        vec![2, 5, 8, 12, 19],
        vec![3, 6, 9, 16, 22],
        vec![10, 13, 14, 17, 24],
        vec![18, 21, 23, 26, 30],
    ]
}

#[test]
fn matrix_holds_five() {
    assert!(search_matrix(grid(), 5));
}

#[test]
fn matrix_lacks_twenty() {
    assert!(!search_matrix(grid(), 20));
}

#[test]
fn matrix_corners_and_outside() {
    assert!(search_matrix(grid(), 1));
    assert!(search_matrix(grid(), 30));
    assert!(search_matrix(grid(), 18));
    assert!(search_matrix(grid(), 15));
    assert!(!search_matrix(grid(), 0));
    assert!(!search_matrix(grid(), 31));
    assert!(search_matrix(vec![vec![-5]], -5));
    assert!(!search_matrix(vec![vec![]], 1));
}

#[test]
fn outline_frames_text() {
    assert_eq!(
        outline("(12, 13)"),
        vec![
            "************".to_string(),
            "*          *".to_string(),
            "* (12, 13) *".to_string(),
            "*          *".to_string(),
            "************".to_string(),
        ]
    );
    assert_eq!(outline(""), vec!["****", "*  *", "*  *", "*  *", "****"]);
}

#[test]
fn workout_plans() {
    let mut c = Cacher::new(|x| x / 2);
    assert_eq!(generate_workout(&mut c, 10, 3), Workout::Strength { pushups: 5, situps: 5 });
    assert_eq!(generate_workout(&mut c, 30, 3), Workout::Rest);
    assert_eq!(generate_workout(&mut c, 30, 7), Workout::Run { minutes: 15 });
}

#[test]
fn chars_of_copies_characters() {
    assert_eq!(chars_of("aé\n"), vec!['a', 'é', '\n']);
    assert!(chars_of("").is_empty());
}

struct Tally<'a> {
    seen: &'a std::cell::RefCell<Vec<u32>>,
    id: u32,
}

impl<'a> minigrep::gui::Draw for Tally<'a> {
    fn draw(&self) {
        self.seen.borrow_mut().push(self.id);
    }
}

#[test]
fn screen_draws_each_component_in_order() {
    let seen = std::cell::RefCell::new(Vec::new());
    let screen = minigrep::gui::Screen {
        components: vec![Tally { seen: &seen, id: 1 }, Tally { seen: &seen, id: 2 }, Tally { seen: &seen, id: 3 }],
    };
    screen.run();
    assert_eq!(*seen.borrow(), vec![1, 2, 3]);
    let buttons = minigrep::gui::Screen {
        components: vec![minigrep::gui::Button { width: 50, height: 20, label: String::from("OK") }],
    };
    buttons.run();
}
