use hero_service::client::Client;
use hero_service::http::{Body, Method, Request};
use hero_service::service::{rocket, Service};
use hero_service::store::{HeroStore, NewHero};

fn new_hero(name: &str, can_fly: bool) -> NewHero {
    NewHero { name: name.to_string(), can_fly }
}

#[test]
fn creates_get_distinct_sequential_ids() {
    let mut store = HeroStore::new();
    for i in 0..5usize {
        let h = store.create(format!("hero{}", i), i % 2 == 0).unwrap();
        assert_eq!(h.id, i + 1);
    }
    let all = store.list();
    assert_eq!(all.len(), 5);
    let ids: Vec<usize> = all.iter().map(|h| h.id).collect();
    assert_eq!(ids, vec![1, 2, 3, 4, 5]);
    assert_eq!(store.len(), 5);
}

#[test]
fn get_after_create_round_trips() {
    let mut store = HeroStore::new();
    let created = store.create("Superman".to_string(), true).unwrap();
    let found = store.get(created.id).unwrap();
    assert_eq!(found.id, created.id);
    assert_eq!(found.name, "Superman");
    assert!(found.can_fly);
}

#[test]
fn get_of_unissued_id_is_empty() {
    let mut store = HeroStore::new();
    assert!(store.get(0).is_none());
    assert!(store.get(1).is_none());
    store.create("Batman".to_string(), false).unwrap();
    assert!(store.get(0).is_none());
    assert!(store.get(2).is_none());
    assert!(store.get(usize::MAX).is_none());
}

#[test]
fn post_hero_answers_created_with_location() {
    let mut client = Client::new(rocket());
    let response = client.send(
        Request::new(Method::Post, "/api/heroes").with_body(new_hero("Superman", true)),
    );
    assert_eq!(response.status, 201);
    assert_eq!(response.location, Some("/api/heroes/1".to_string()));
    match response.body {
        Body::One(h) => {
            assert_eq!(h.id, 1);
            assert_eq!(h.name, "Superman");
            assert!(h.can_fly);
        }
        _ => panic!("expected the created resource"),
    }
    let second = client.send(
        Request::new(Method::Post, "/api/heroes").with_body(new_hero("Batman", false)),
    );
    assert_eq!(second.location, Some("/api/heroes/2".to_string()));
}

#[test]
fn post_without_body_is_unprocessable() {
    let mut client = Client::new(rocket());
    let response = client.send(Request::new(Method::Post, "/api/heroes"));
    assert_eq!(response.status, 422);
    assert_eq!(client.service.store.len(), 0);
}

#[test]
fn get_hero_by_path() {
    let mut client = Client::new(rocket());
    client.send(Request::new(Method::Post, "/api/heroes").with_body(new_hero("Storm", true)));
    match client.get("/api/heroes/1").body {
        Body::One(h) => assert_eq!(h.name, "Storm"),
        _ => panic!("expected a resource"),
    }
    assert_eq!(client.get("/api/heroes/2").status, 404);
    assert_eq!(client.get("/api/heroes/x1").status, 404);
    assert_eq!(client.get("/api/heroes/99999999999999999999999").status, 404);
}

#[test]
fn get_all_lists_in_id_order() {
    let mut client = Client::new(rocket());
    client.send(Request::new(Method::Post, "/api/heroes").with_body(new_hero("A", true)));
    client.send(Request::new(Method::Post, "/api/heroes").with_body(new_hero("B", false)));
    match client.get("/api/heroes").body {
        Body::Many(v) => {
            let names: Vec<&str> = v.iter().map(|h| h.name.as_str()).collect();
            assert_eq!(names, vec!["A", "B"]);
        }
        _ => panic!("expected a list"),
    }
}

#[test]
fn counts_report_gets_and_posts() {
    let mut client = Client::new(rocket());
    client.get("/api");
    client.get("/api/rainer");
    client.send(Request::new(Method::Post, "/api/heroes").with_body(new_hero("A", true)));
    client.send(Request::new(Method::Put, "/api/heroes"));
    assert_eq!(client.get("/api/counts").text(), Some("Get: 3\nPost: 1".into()));
    assert_eq!(client.get("/api/counts").text(), Some("Get: 4\nPost: 1".into()));
}

#[test]
fn service_dispatch_counts_every_request() {
    let mut service: Service = Service::new();
    for _ in 0..12 {
        service.dispatch(&Request::new(Method::Get, "/nowhere"));
    }
    service.dispatch(&Request::new(Method::Post, "/nowhere"));
    assert_eq!(service.counter.get, 12);
    assert_eq!(service.counter.post, 1);
}

#[test]
fn counts_route_needs_the_fairing_started() {
    let mut client = Client::new(Service::new());
    assert_eq!(client.get("/api/counts").text(), Some("Hello counts".into()));
    let mut started = Client::new(rocket());
    assert_eq!(started.get("/api/counts").text(), Some("Get: 1\nPost: 0".into()));
}

#[test]
fn hero_id_segment_is_percent_decoded() {
    let mut client = Client::new(rocket());
    client.send(Request::new(Method::Post, "/api/heroes").with_body(new_hero("Rogue", false)));
    assert_eq!(client.get("/api/heroes/%31").status, 200);
}
