use shapez_key::split::split_layers;
use shapez_key::{
    check_key, check_layer, check_quad, get_color, get_sub_shape, ordinal, Color, LengthFault,
    ParseError, Quad, Subshape, MAX_LAYERS, QUADS_AMOUNT,
};

#[test]
fn ordinal_of_small_indices() {
    assert_eq!(ordinal(0), "1st");
    assert_eq!(ordinal(1), "2nd");
    assert_eq!(ordinal(2), "3rd");
    assert_eq!(ordinal(3), "4th");
    assert_eq!(ordinal(8), "9th");
    assert_eq!(ordinal(9), "10th");
    assert_eq!(ordinal(10), "11th");
}

#[test]
fn ordinal_suffix_goes_by_the_whole_number() {
    assert_eq!(ordinal(20), "21th");
    assert_eq!(ordinal(21), "22th");
    assert_eq!(ordinal(22), "23th");
    assert_eq!(ordinal(100), "101th");
    assert_eq!(ordinal(110), "111th");
}

#[test]
fn ordinal_of_large_indices() {
    assert_eq!(ordinal(999), "1000th");
    assert_eq!(ordinal(1234567), "1234568th");
    let last: u128 = usize::MAX as u128 + 1;
    assert_eq!(ordinal(usize::MAX), format!("{}th", last));
}

#[test]
fn limits_are_four_and_four() {
    assert_eq!(MAX_LAYERS, 4);
    assert_eq!(QUADS_AMOUNT, 4);
}

#[test]
fn every_subshape_code_is_classified() {
    assert_eq!(get_sub_shape('C', 0, 0), Ok(Subshape::Circle));
    assert_eq!(get_sub_shape('S', 0, 0), Ok(Subshape::Square));
    assert_eq!(get_sub_shape('R', 0, 0), Ok(Subshape::Rectangle));
    assert_eq!(get_sub_shape('W', 0, 0), Ok(Subshape::Windmill));
}

#[test]
fn every_color_code_is_classified() {
    assert_eq!(get_color('r', 0, 0), Ok(Color::Red));
    assert_eq!(get_color('g', 0, 0), Ok(Color::Green));
    assert_eq!(get_color('b', 0, 0), Ok(Color::Blue));
    assert_eq!(get_color('y', 0, 0), Ok(Color::Yellow));
    assert_eq!(get_color('p', 0, 0), Ok(Color::Purple));
    assert_eq!(get_color('c', 0, 0), Ok(Color::Cyan));
    assert_eq!(get_color('w', 0, 0), Ok(Color::White));
    assert_eq!(get_color('u', 0, 0), Ok(Color::Uncolored));
}

#[test]
fn no_other_character_is_a_subshape_code() {
    let mut accepted: usize = 0;
    for code in 0u32..=0x10ffff {
        if let Some(character) = char::from_u32(code) {
            match get_sub_shape(character, 1, 2) {
                Ok(subshape) => {
                    assert_eq!(subshape.code(), character);
                    accepted += 1;
                }
                Err(error) => assert_eq!(
                    error,
                    ParseError::InvalidSubshape {
                        layer_index: 1,
                        quad_index: 2,
                        found: character
                    }
                ),
            }
        }
    }
    assert_eq!(accepted, 4);
}

#[test]
fn no_other_character_is_a_color_code() {
    let mut accepted: usize = 0;
    for code in 0u32..=0x10ffff {
        if let Some(character) = char::from_u32(code) {
            match get_color(character, 3, 1) {
                Ok(color) => {
                    assert_eq!(color.code(), character);
                    accepted += 1;
                }
                Err(error) => assert_eq!(
                    error,
                    ParseError::InvalidColor {
                        layer_index: 3,
                        quad_index: 1,
                        found: character
                    }
                ),
            }
        }
    }
    assert_eq!(accepted, 8);
}

#[test]
fn every_pair_of_codes_is_a_quad() {
    let subshapes = [
        Subshape::Circle,
        Subshape::Square,
        Subshape::Rectangle,
        Subshape::Windmill,
    ];
    let colors = [
        Color::Red,
        Color::Green,
        Color::Blue,
        Color::Yellow,
        Color::Purple,
        Color::Cyan,
        Color::White,
        Color::Uncolored,
    ];
    for subshape in subshapes {
        for color in colors {
            let quad = [subshape.code(), color.code()];
            assert_eq!(
                check_quad(&quad, 0, 0),
                Ok(Some(Quad(subshape, color)))
            );
        }
    }
}

#[test]
fn only_pairs_of_codes_and_the_empty_mark_are_quads() {
    let mut filled: usize = 0;
    let mut empty: usize = 0;
    for first in '\0'..='\u{ff}' {
        for second in '\0'..='\u{ff}' {
            match check_quad(&[first, second], 0, 0) {
                Ok(Some(Quad(subshape, color))) => {
                    assert_eq!([subshape.code(), color.code()], [first, second]);
                    filled += 1;
                }
                Ok(None) => {
                    assert_eq!([first, second], ['-', '-']);
                    empty += 1;
                }
                Err(errors) => assert!(errors.len() == 1 || errors.len() == 2),
            }
        }
    }
    assert_eq!(filled, 32);
    assert_eq!(empty, 1);
}

#[test]
fn quad_with_a_wrong_color_only() {
    assert_eq!(
        check_quad(&['R', '-'], 2, 3),
        Err(vec![ParseError::InvalidColor {
            layer_index: 2,
            quad_index: 3,
            found: '-'
        }])
    );
}

#[test]
fn layer_gives_its_four_slots() {
    assert_eq!(
        check_layer(&"Cy--Wp--".chars().collect::<Vec<char>>(), 0),
        Ok([
            Some(Quad(Subshape::Circle, Color::Yellow)),
            None,
            Some(Quad(Subshape::Windmill, Color::Purple)),
            None,
        ])
    );
}

#[test]
fn layer_with_three_empty_quads_is_accepted() {
    assert_eq!(
        check_layer(&"------Sb".chars().collect::<Vec<char>>(), 3),
        Ok([None, None, None, Some(Quad(Subshape::Square, Color::Blue))])
    );
}

#[test]
fn blank_layer_names_its_index() {
    let errors = check_layer(&"--------".chars().collect::<Vec<char>>(), 3).unwrap_err();
    assert_eq!(errors, vec![ParseError::EmptyLayer { layer_index: 3 }]);
    assert_eq!(errors[0].message(), "4th layer is empty");
}

#[test]
fn layer_with_one_dash_short_of_blank_is_not_empty() {
    assert_eq!(
        check_layer(&"-------c".chars().collect::<Vec<char>>(), 0),
        Err(vec![ParseError::InvalidSubshape {
            layer_index: 0,
            quad_index: 3,
            found: '-'
        }])
    );
}

#[test]
fn layer_length_is_counted_in_characters() {
    let seven: Vec<char> = "CuCuCu\u{e9}".chars().collect();
    assert_eq!(seven.len(), 7);
    assert_eq!(
        check_layer(&seven, 0),
        Err(vec![ParseError::InvalidLayerLength {
            layer_index: 0,
            fault: LengthFault::Odd
        }])
    );
    let eight: Vec<char> = "CuCuCuC\u{e9}".chars().collect();
    assert_eq!(
        check_layer(&eight, 0),
        Err(vec![ParseError::InvalidColor {
            layer_index: 0,
            quad_index: 3,
            found: '\u{e9}'
        }])
    );
}

#[test]
fn empty_layer_is_too_short() {
    assert_eq!(
        check_layer(&"".chars().collect::<Vec<char>>(), 0),
        Err(vec![ParseError::InvalidLayerLength {
            layer_index: 0,
            fault: LengthFault::TooFew
        }])
    );
}

#[test]
fn key_check_takes_the_empty_key_for_a_short_layer() {
    assert_eq!(
        check_key(&"".chars().collect::<Vec<char>>()),
        Err(vec![ParseError::InvalidLayerLength {
            layer_index: 0,
            fault: LengthFault::TooFew
        }])
    );
}

#[test]
fn key_check_gives_the_layers_in_order() {
    assert_eq!(
        check_key(&"Cr------:--Sg----".chars().collect::<Vec<char>>()),
        Ok(vec![
            [Some(Quad(Subshape::Circle, Color::Red)), None, None, None],
            [None, Some(Quad(Subshape::Square, Color::Green)), None, None],
        ])
    );
}

#[test]
fn structural_faults_are_told_apart() {
    assert!(ParseError::EmptyInput.is_structural());
    assert!(ParseError::TooManyLayers.is_structural());
    assert!(ParseError::InvalidLayerLength {
        layer_index: 0,
        fault: LengthFault::Odd
    }
    .is_structural());
    assert!(!ParseError::InvalidSubshape {
        layer_index: 0,
        quad_index: 0,
        found: 'X'
    }
    .is_structural());
    assert!(!ParseError::InvalidColor {
        layer_index: 0,
        quad_index: 0,
        found: 'X'
    }
    .is_structural());
    assert!(!ParseError::EmptyLayer { layer_index: 0 }.is_structural());
}

#[test]
fn split_cuts_at_every_separator() {
    let keys = ["", "abc", "ab:c", ":a::b:"];
    let expected: [Vec<&str>; 4] = [
        vec![""],
        vec!["abc"],
        vec!["ab", "c"],
        vec!["", "a", "", "b", ""],
    ];
    for (key, layers) in keys.iter().zip(expected.iter()) {
        let characters: Vec<char> = key.chars().collect();
        let found: Vec<String> = split_layers(&characters)
            .iter()
            .map(|layer| layer.iter().collect::<String>())
            .collect();
        assert_eq!(&found, layers);
    }
}

#[test]
fn split_matches_the_standard_split() {
    let keys = [
        "",
        ":",
        "RuCrSgWw:Rr------",
        "a:b:c:d:e",
        "::x",
        "x::",
        "\u{e9}:\u{1f600}\u{e9}",
    ];
    for key in keys {
        let characters: Vec<char> = key.chars().collect();
        let found: Vec<String> = split_layers(&characters)
            .iter()
            .map(|layer| layer.iter().collect::<String>())
            .collect();
        let expected: Vec<&str> = key.split(':').collect();
        assert_eq!(found, expected);
    }
}

#[test]
fn messages_of_every_kind() {
    assert_eq!(ParseError::EmptyInput.message(), "Empty input");
    assert_eq!(
        ParseError::TooManyLayers.message(),
        "Input has more than 4 layers"
    );
    assert_eq!(
        ParseError::InvalidLayerLength {
            layer_index: 3,
            fault: LengthFault::Odd
        }
        .message(),
        "4th layer has odd number of characters"
    );
    assert_eq!(
        ParseError::InvalidLayerLength {
            layer_index: 0,
            fault: LengthFault::TooFew
        }
        .message(),
        "1st layer has less than 8 characters"
    );
    assert_eq!(
        ParseError::InvalidLayerLength {
            layer_index: 1,
            fault: LengthFault::TooMany
        }
        .message(),
        "2nd layer has more than 8 characters"
    );
    assert_eq!(
        ParseError::InvalidSubshape {
            layer_index: 1,
            quad_index: 2,
            found: 'Q'
        }
        .message(),
        "Invalid sub-shape \"Q\" in 2nd layer, 3rd quad"
    );
    assert_eq!(
        ParseError::InvalidColor {
            layer_index: 2,
            quad_index: 3,
            found: 'z'
        }
        .message(),
        "Invalid color \"z\" in 3rd layer, 4th quad"
    );
    assert_eq!(
        ParseError::EmptyLayer { layer_index: 2 }.message(),
        "3rd layer is empty"
    );
}
