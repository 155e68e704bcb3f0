use std::cell::RefCell;

use minigrep::blog::{Post, PostState};
use minigrep::cache::Cacher;
use minigrep::colors::{add_one, mix, PrimaryColor, SecondaryColor};
use minigrep::egg_drop::{dp, super_egg_drop};
use minigrep::generics::{get_largest, Point2};
use minigrep::iterators::{shoes_in_my_size, Counter, Shoe};
use minigrep::merge::merge;
use minigrep::quota::{quota_alert, LimitTracker, Messenger, QuotaAlert};
use minigrep::shapes::{Guess, Rectangle};
use minigrep::summary::{NewsArticle, Summary, Tweet};

#[test]
fn it_works() {
    let result = 2 + 2;
    assert_eq!(result, 4);
}

#[test]
fn largest_can_hold_smaller() {
    let larger = Rectangle { length: 8, width: 7 };
    let smaller = Rectangle { length: 5, width: 1 };

    assert!(larger.can_hole(&smaller));
}

#[test]
fn smaller_can_hold_larger() {
    let larger = Rectangle { length: 8, width: 7 };
    let smaller = Rectangle { length: 5, width: 1 };

    assert!(!smaller.can_hole(&larger));
}

#[test]
fn rectangle_needs_both_sides_larger() {
    let a = Rectangle { length: 8, width: 7 };
    assert!(!a.can_hole(&Rectangle { length: 8, width: 1 }));
    assert!(!a.can_hole(&Rectangle { length: 1, width: 7 }));
    assert!(!a.can_hole(&a));
}

#[test]
fn guess_keeps_its_value() {
    assert_eq!(Guess::new(1).value(), 1);
    assert_eq!(Guess::new(100).value(), 100);
    assert_eq!(Guess::new(42).value(), 42);
}

#[test]
fn call_with_different_values() {
    let mut c = Cacher::new(|a| a);
    let _v1 = c.value(1);
    let v2 = c.value(2);
    assert_eq!(v2, 2);
}

#[test]
fn cacher_calls_once_per_argument() {
    let calls = RefCell::new(0u32);
    let mut c = Cacher::new(|a| {
        *calls.borrow_mut() += 1;
        a * 2
    });
    assert_eq!(c.value(3), 6);
    assert_eq!(c.value(3), 6);
    assert_eq!(c.value(4), 8);
    assert_eq!(*calls.borrow(), 2);
}

#[test]
fn using_other_iterator_trait_methods() {
    let mut first = Counter::new();
    let mut second = Counter::new();
    second.next();
    let mut sum: u32 = 0;
    while let (Some(a), Some(b)) = (first.next(), second.next()) {
        let x = a * b;
        if x % 3 == 0 {
            sum += x;
        }
    }
    assert_eq!(18, sum);
}

#[test]
fn counter_counts_to_five() {
    let mut c = Counter::new();
    let mut seen = Vec::new();
    while let Some(x) = c.next() {
        seen.push(x);
    }
    assert_eq!(seen, vec![1, 2, 3, 4, 5]);
    assert_eq!(c.next(), None);
}

#[test]
fn filters_by_size() {
    let shoes = vec![
        Shoe { size: 10, style: String::from("sneaker") },
        Shoe { size: 13, style: String::from("sandal") },
        Shoe { size: 10, style: String::from("boot") },
    ];
    let in_my_size = shoes_in_my_size(shoes, 10);
    assert_eq!(
        in_my_size,
        vec![
            Shoe { size: 10, style: String::from("sneaker") },
            Shoe { size: 10, style: String::from("boot") },
        ]
    );
    assert!(shoes_in_my_size(Vec::new(), 10).is_empty());
}

struct MockMessenger {
    send_messages: RefCell<Vec<String>>,
}

impl MockMessenger {
    fn new() -> MockMessenger {
        MockMessenger { send_messages: RefCell::new(vec![]) }
    }
}

impl Messenger for MockMessenger {
    fn send(&self, message: &str) {
        self.send_messages.borrow_mut().push(String::from(message));
    }
}

#[test]
fn it_sends_an_over_75_percent_warning_message() {
    let mock_messenger = MockMessenger::new();
    let mut limit_tracker = LimitTracker::new(&mock_messenger, 100);

    limit_tracker.set_value(80);

    assert_eq!(mock_messenger.send_messages.borrow().len(), 1);
}

#[test]
fn tracker_sends_the_right_messages() {
    let m = MockMessenger::new();
    let mut t = LimitTracker::new(&m, 100);
    t.set_value(10);
    t.set_value(75);
    t.set_value(90);
    t.set_value(100);
    t.set_value(74);
    let sent = m.send_messages.borrow();
    assert_eq!(
        *sent,
        vec![
            "Warning: You've used up over 75% of your quota!".to_string(),
            "Urgent warning: You've used up over 90% of your quota!".to_string(),
            "Error: You are over your quota!".to_string(),
        ]
    );
}

#[test]
fn quota_thresholds() {
    assert_eq!(quota_alert(0, 100), None);
    assert_eq!(quota_alert(74, 100), None);
    assert_eq!(quota_alert(75, 100), Some(QuotaAlert::Warning));
    assert_eq!(quota_alert(89, 100), Some(QuotaAlert::Warning));
    assert_eq!(quota_alert(90, 100), Some(QuotaAlert::Urgent));
    assert_eq!(quota_alert(99, 100), Some(QuotaAlert::Urgent));
    assert_eq!(quota_alert(100, 100), Some(QuotaAlert::Over));
    assert_eq!(quota_alert(500, 100), Some(QuotaAlert::Over));
    assert_eq!(quota_alert(1, 0), Some(QuotaAlert::Over));
    assert_eq!(quota_alert(0, 0), None);
    assert_eq!(quota_alert(usize::MAX, usize::MAX), Some(QuotaAlert::Over));
}

#[test]
fn blog_post_workflow() {
    let mut post = Post::new();
    post.add_text("I ate a salad for lunch today");
    assert_eq!("", post.content());
    post.approve();
    assert_eq!("", post.content());
    post.request_review();
    assert_eq!("", post.content());
    post.approve();
    assert_eq!("I ate a salad for lunch today", post.content());
    post.request_review();
    assert_eq!("I ate a salad for lunch today", post.content());
}

#[test]
fn post_states_move_forward_only() {
    assert_eq!(PostState::Draft.request_review(), PostState::PendingReview);
    assert_eq!(PostState::PendingReview.request_review(), PostState::PendingReview);
    assert_eq!(PostState::Published.request_review(), PostState::Published);
    assert_eq!(PostState::Draft.approve(), PostState::Draft);
    assert_eq!(PostState::PendingReview.approve(), PostState::Published);
    assert_eq!(PostState::Published.approve(), PostState::Published);
    assert!(PostState::Published.shows_content());
    assert!(!PostState::Draft.shows_content());
}

#[test]
fn merges_sorted_runs() {
    let mut nums1 = vec![1, 2, 3, 0, 0, 0];
    let mut nums2 = vec![2, 5, 6];
    merge(&mut nums1, 3, &mut nums2, 3);
    assert_eq!(nums1, vec![1, 2, 2, 3, 5, 6]);
    assert_eq!(nums2, vec![2, 5, 6]);
}

#[test]
fn merges_with_empty_runs() {
    let mut nums1 = vec![1];
    let mut nums2: Vec<i32> = vec![];
    merge(&mut nums1, 1, &mut nums2, 0);
    assert_eq!(nums1, vec![1]);
    let mut nums1 = vec![0];
    let mut nums2 = vec![1];
    merge(&mut nums1, 0, &mut nums2, 1);
    assert_eq!(nums1, vec![1]);
}

#[test]
fn merge_leaves_the_tail_alone() {
    let mut nums1 = vec![4, 0, 9, 9];
    let mut nums2 = vec![-1, 7];
    merge(&mut nums1, 1, &mut nums2, 1);
    assert_eq!(nums1, vec![-1, 4, 9, 9]);
}

#[test]
fn egg_drop_values() {
    assert_eq!(super_egg_drop(1, 2), 2);
    assert_eq!(super_egg_drop(2, 6), 3);
    assert_eq!(super_egg_drop(3, 14), 4);
    assert_eq!(super_egg_drop(2, 100), 14);
    assert_eq!(super_egg_drop(1, 0), 0);
    assert_eq!(super_egg_drop(5, 0), 0);
    assert_eq!(super_egg_drop(1, 7), 7);
    assert_eq!(super_egg_drop(4, 5000), 19);
}

#[test]
fn dp_fills_the_memo() {
    let mut memo: Vec<Vec<Option<i32>>> = vec![vec![None; 7]; 3];
    assert_eq!(dp(2, 6, &mut memo), 3);
    assert_eq!(memo[2][6], Some(3));
    assert_eq!(dp(2, 6, &mut memo), 3);
}

#[test]
fn colours_mix_green() {
    assert_eq!(mix(PrimaryColor::Red, SecondaryColor::Orange), SecondaryColor::Green);
    assert_eq!(mix(PrimaryColor::Blue, SecondaryColor::Purple), SecondaryColor::Green);
}

#[test]
fn adds_one() {
    assert_eq!(add_one(5), 6);
    assert_eq!(add_one(-1), 0);
}

#[test]
fn largest_of_a_list() {
    assert_eq!(get_largest(&[10, 20, 5, 100, 1001, 1002]), 1002);
    assert_eq!(get_largest(&[-3]), -3);
    assert_eq!(get_largest(&[7, 7, -1]), 7);
}

#[test]
fn mixup_takes_x_and_y() {
    let p1 = Point2 { x: 5, y: 10.4 };
    let p2 = Point2 { x: "Hello", y: 'c' };
    let p3 = p1.mixup(p2);
    assert_eq!(p3.x, 5);
    assert_eq!(p3.y, 'c');
}

#[test]
fn summaries() {
    let tweet = Tweet {
        username: String::from("horse_ebooks"),
        content: String::from("of course, as you probably already know, people"),
        reply: false,
        retweet: false,
    };
    assert_eq!(tweet.summarize(), "horse_ebooks: of course, as you probably already know, people");
    let article = NewsArticle {
        headline: String::from("Penguins win the Stanley Cup Championship!"),
        location: String::from("Pittsburgh, PA, USA"),
        author: String::from("Iceburgh"),
        content: String::from("The Pittsburgh Penguins once again are the best hockey team in the NHL."),
    };
    assert_eq!(
        article.summarize(),
        "Penguins win the Stanley Cup Championship!, by Iceburgh (Pittsburgh, PA, USA)"
    );
}
