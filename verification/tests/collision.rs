use simulation::collision::{Landing, Touchdown};

fn on_the_pad() -> Touchdown {
    Touchdown {
        flat: true,
        ceiling: false,
        dist: 5300,
        horizontal_excess: None,
        vertical_excess: None,
        tilt: None,
    }
}

#[test]
fn a_clean_contact_with_the_pad_is_correct() {
    assert_eq!(Landing::classify(&on_the_pad()), Landing::Correct);
}

#[test]
fn sloped_ground_is_wrong_terrain() {
    let contact = Touchdown { flat: false, ..on_the_pad() };
    assert_eq!(Landing::classify(&contact), Landing::WrongTerrain { dist: 5300 });
}

#[test]
fn the_ceiling_is_wrong_terrain() {
    let contact = Touchdown { ceiling: true, dist: 10000, ..on_the_pad() };
    assert_eq!(Landing::classify(&contact), Landing::WrongTerrain { dist: 10000 });
}

#[test]
fn wrong_terrain_precedes_everything_else() {
    let contact = Touchdown {
        flat: false,
        horizontal_excess: Some(10),
        vertical_excess: Some(5),
        tilt: Some(40),
        ..on_the_pad()
    };
    assert_eq!(Landing::classify(&contact), Landing::WrongTerrain { dist: 5300 });
}

#[test]
fn horizontal_speed_precedes_vertical_speed_and_tilt() {
    // vx = -30, vy = -45, angle = 40 at the pad
    let contact = Touchdown {
        horizontal_excess: Some(10),
        vertical_excess: Some(5),
        tilt: Some(40),
        ..on_the_pad()
    };
    assert_eq!(Landing::classify(&contact), Landing::TooFastHorizontal { error_abs: 10 });
    let contact = Touchdown { horizontal_excess: Some(10), tilt: Some(30), ..on_the_pad() };
    assert_eq!(Landing::classify(&contact), Landing::TooFastHorizontal { error_abs: 10 });
}

#[test]
fn vertical_speed_precedes_tilt() {
    let contact = Touchdown { vertical_excess: Some(5), tilt: Some(40), ..on_the_pad() };
    assert_eq!(Landing::classify(&contact), Landing::TooFastVertical { error_abs: 5 });
}

#[test]
fn a_tilted_landing_is_not_vertical() {
    let contact = Touchdown { tilt: Some(10), ..on_the_pad() };
    assert_eq!(Landing::classify(&contact), Landing::NotVertical { error_abs: 10 });
}
