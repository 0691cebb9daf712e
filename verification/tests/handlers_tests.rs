use notes_service::handlers::{
    choice_of_draw, greet, greet_name, health_reply, hello_message, king_message, look_it_up,
    ping_message, poem_fault_reply, post_hello_message, random_reply, render_poem_page, Person,
    Poem, PoemFault, RandomChoice,
};

#[test]
fn fixed_messages() {
    assert_eq!(hello_message(), "Hello, World1!");
    assert_eq!(post_hello_message(), "Hello, World1 post!");
    assert_eq!(ping_message(), "pong");
    assert_eq!(king_message(), "Kong");
}

#[test]
fn greeting_for_path_name() {
    assert_eq!(greet_name("Ada"), "Hello, Ada!");
    assert_eq!(greet_name(""), "Hello, !");
}

#[test]
fn greeting_defaults_apply_per_field() {
    assert_eq!(greet(&None, &None), "Hello, World!");
    assert_eq!(greet(&Some("Hi".to_string()), &None), "Hi, World!");
    assert_eq!(greet(&None, &Some("Ada".to_string())), "Hello, Ada!");
    assert_eq!(
        greet(&Some("Good day".to_string()), &Some("Ada".to_string())),
        "Good day, Ada!"
    );
}

#[test]
fn lookup_finds_exactly_positive_odd_numbers() {
    let (status, report) = look_it_up(3);
    assert_eq!(status, 200);
    assert_eq!(report.number, 3);
    assert!(report.found);

    let (status, report) = look_it_up(4);
    assert_eq!(status, 404);
    assert!(!report.found);

    let (status, report) = look_it_up(-3);
    assert_eq!(status, 404);
    assert!(!report.found);

    let (status, report) = look_it_up(0);
    assert_eq!(status, 404);
    assert!(!report.found);
}

#[test]
fn draws_map_to_their_choices() {
    assert!(matches!(choice_of_draw(0), RandomChoice::Greeting));
    assert!(matches!(choice_of_draw(1), RandomChoice::NotImplemented));
    assert!(matches!(choice_of_draw(2), RandomChoice::Answer));
}

#[test]
fn random_reply_is_one_of_the_three() {
    for _ in 0..32 {
        let c = random_reply();
        assert!(matches!(
            c,
            RandomChoice::Greeting | RandomChoice::NotImplemented | RandomChoice::Answer
        ));
    }
}

#[test]
fn poem_renders_title_twice_and_text_once() {
    let poem = Poem { title: "Ode".to_string(), text: "line one\nline two".to_string() };
    let page = render_poem_page(&poem);
    assert_eq!(
        page,
        "<html><head><title>Ode</title></head><body><h1>Ode</h1><pre>line one\nline two</pre></body></html>"
    );
}

#[test]
fn poem_faults_report_their_step() {
    let (status, message) = poem_fault_reply(&PoemFault::FileAccess, "no such file");
    assert_eq!(status, 500);
    assert_eq!(message, "Error while accessing file: no such file");
    let (status, message) = poem_fault_reply(&PoemFault::YamlParse, "bad document");
    assert_eq!(status, 500);
    assert_eq!(message, "Error in YMAL file: bad document");
}

#[test]
fn health_reply_is_fixed() {
    let (status, message) = health_reply();
    assert_eq!(status, "ok2");
    assert_eq!(message, "API Services");
}

#[test]
fn person_keeps_its_name() {
    let p = Person::new("Grace".to_string());
    assert_eq!(p.name(), "Grace");
}
