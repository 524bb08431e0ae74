//! The named colour palette and colour tokens with an optional alpha suffix.
use vstd::prelude::*;
use crate::number::{parse_unsigned, unsigned_value};
use crate::style::Rgba;
use crate::text::{eq_lit, find_char, first_index_of, lemma_first_index_of, slice};

verus! {

/// A hue family of the palette; each comes in eleven shades.
#[derive(Clone, Copy, Debug, PartialEq, Eq, Structural)]
pub enum Family {
    Slate,
    Gray,
    Zinc,
    Neutral,
    Stone,
    Red,
    Orange,
    Amber,
    Yellow,
    Lime,
    Green,
    Emerald,
    Teal,
    Cyan,
    Sky,
    Blue,
    Indigo,
    Violet,
    Purple,
    Fuchsia,
    Pink,
    Rose,
}

/// The family a name denotes.
pub open spec fn family_named(s: Seq<char>) -> Option<Family> {
    if s == "slate"@ {
        Some(Family::Slate)
    } else if s == "gray"@ {
        Some(Family::Gray)
    } else if s == "zinc"@ {
        Some(Family::Zinc)
    } else if s == "neutral"@ {
        Some(Family::Neutral)
    } else if s == "stone"@ {
        Some(Family::Stone)
    } else if s == "red"@ {
        Some(Family::Red)
    } else if s == "orange"@ {
        Some(Family::Orange)
    } else if s == "amber"@ {
        Some(Family::Amber)
    } else if s == "yellow"@ {
        Some(Family::Yellow)
    } else if s == "lime"@ {
        Some(Family::Lime)
    } else if s == "green"@ {
        Some(Family::Green)
    } else if s == "emerald"@ {
        Some(Family::Emerald)
    } else if s == "teal"@ {
        Some(Family::Teal)
    } else if s == "cyan"@ {
        Some(Family::Cyan)
    } else if s == "sky"@ {
        Some(Family::Sky)
    } else if s == "blue"@ {
        Some(Family::Blue)
    } else if s == "indigo"@ {
        Some(Family::Indigo)
    } else if s == "violet"@ {
        Some(Family::Violet)
    } else if s == "purple"@ {
        Some(Family::Purple)
    } else if s == "fuchsia"@ {
        Some(Family::Fuchsia)
    } else if s == "pink"@ {
        Some(Family::Pink)
    } else if s == "rose"@ {
        Some(Family::Rose)
    } else {
        None
    }
}

fn family_of(s: &Vec<char>) -> (r: Option<Family>)
    ensures
        r == family_named(s@),
{
    if eq_lit(s, "slate") {
        Some(Family::Slate)
    } else if eq_lit(s, "gray") {
        Some(Family::Gray)
    } else if eq_lit(s, "zinc") {
        Some(Family::Zinc)
    } else if eq_lit(s, "neutral") {
        Some(Family::Neutral)
    } else if eq_lit(s, "stone") {
        Some(Family::Stone)
    } else if eq_lit(s, "red") {
        Some(Family::Red)
    } else if eq_lit(s, "orange") {
        Some(Family::Orange)
    } else if eq_lit(s, "amber") {
        Some(Family::Amber)
    } else if eq_lit(s, "yellow") {
        Some(Family::Yellow)
    } else if eq_lit(s, "lime") {
        Some(Family::Lime)
    } else if eq_lit(s, "green") {
        Some(Family::Green)
    } else if eq_lit(s, "emerald") {
        Some(Family::Emerald)
    } else if eq_lit(s, "teal") {
        Some(Family::Teal)
    } else if eq_lit(s, "cyan") {
        Some(Family::Cyan)
    } else if eq_lit(s, "sky") {
        Some(Family::Sky)
    } else if eq_lit(s, "blue") {
        Some(Family::Blue)
    } else if eq_lit(s, "indigo") {
        Some(Family::Indigo)
    } else if eq_lit(s, "violet") {
        Some(Family::Violet)
    } else if eq_lit(s, "purple") {
        Some(Family::Purple)
    } else if eq_lit(s, "fuchsia") {
        Some(Family::Fuchsia)
    } else if eq_lit(s, "pink") {
        Some(Family::Pink)
    } else if eq_lit(s, "rose") {
        Some(Family::Rose)
    } else {
        None
    }
}

/// The position of a shade name in 50, 100, 200, ..., 900, 950.
pub open spec fn shade_named(s: Seq<char>) -> Option<nat> {
    if s == "50"@ {
        Some(0nat)
    } else if s == "100"@ {
        Some(1nat)
    } else if s == "200"@ {
        Some(2nat)
    } else if s == "300"@ {
        Some(3nat)
    } else if s == "400"@ {
        Some(4nat)
    } else if s == "500"@ {
        Some(5nat)
    } else if s == "600"@ {
        Some(6nat)
    } else if s == "700"@ {
        Some(7nat)
    } else if s == "800"@ {
        Some(8nat)
    } else if s == "900"@ {
        Some(9nat)
    } else if s == "950"@ {
        Some(10nat)
    } else {
        None
    }
}

fn shade_of(s: &Vec<char>) -> (r: Option<usize>)
    ensures
        r == (match shade_named(s@) {
            Some(i) => Some(i as usize),
            None => None::<usize>,
        }),
{
    if eq_lit(s, "50") {
        Some(0)
    } else if eq_lit(s, "100") {
        Some(1)
    } else if eq_lit(s, "200") {
        Some(2)
    } else if eq_lit(s, "300") {
        Some(3)
    } else if eq_lit(s, "400") {
        Some(4)
    } else if eq_lit(s, "500") {
        Some(5)
    } else if eq_lit(s, "600") {
        Some(6)
    } else if eq_lit(s, "700") {
        Some(7)
    } else if eq_lit(s, "800") {
        Some(8)
    } else if eq_lit(s, "900") {
        Some(9)
    } else if eq_lit(s, "950") {
        Some(10)
    } else {
        None
    }
}

/// The red, green and blue channels of the eleven shades of a family.
pub open spec fn shades(f: Family) -> Seq<(u8, u8, u8)> {
    match f {
        Family::Slate => seq![
            (248u8, 250u8, 252u8), (241u8, 245u8, 249u8), (226u8, 232u8, 240u8), (203u8, 213u8, 225u8),
            (148u8, 163u8, 184u8), (100u8, 116u8, 139u8), (71u8, 85u8, 105u8), (51u8, 65u8, 85u8),
            (30u8, 41u8, 59u8), (15u8, 23u8, 42u8), (2u8, 6u8, 23u8),
        ],
        Family::Gray => seq![
            (249u8, 250u8, 251u8), (243u8, 244u8, 246u8), (229u8, 231u8, 235u8), (209u8, 213u8, 219u8),
            (156u8, 163u8, 175u8), (107u8, 114u8, 128u8), (75u8, 85u8, 99u8), (55u8, 65u8, 81u8),
            (31u8, 41u8, 55u8), (17u8, 24u8, 39u8), (3u8, 7u8, 18u8),
        ],
        Family::Zinc => seq![
            (250u8, 250u8, 250u8), (244u8, 244u8, 245u8), (228u8, 228u8, 231u8), (212u8, 212u8, 216u8),
            (161u8, 161u8, 170u8), (113u8, 113u8, 122u8), (82u8, 82u8, 91u8), (63u8, 63u8, 70u8),
            (39u8, 39u8, 42u8), (24u8, 24u8, 27u8), (9u8, 9u8, 11u8),
        ],
        Family::Neutral => seq![
            (250u8, 250u8, 250u8), (245u8, 245u8, 245u8), (229u8, 229u8, 229u8), (212u8, 212u8, 212u8),
            (163u8, 163u8, 163u8), (115u8, 115u8, 115u8), (82u8, 82u8, 82u8), (64u8, 64u8, 64u8),
            (38u8, 38u8, 38u8), (23u8, 23u8, 23u8), (10u8, 10u8, 10u8),
        ],
        Family::Stone => seq![
            (250u8, 250u8, 249u8), (245u8, 245u8, 244u8), (231u8, 229u8, 228u8), (214u8, 211u8, 209u8),
            (168u8, 162u8, 158u8), (120u8, 113u8, 108u8), (87u8, 83u8, 78u8), (68u8, 64u8, 60u8),
            (41u8, 37u8, 36u8), (28u8, 25u8, 23u8), (12u8, 10u8, 9u8),
        ],
        Family::Red => seq![
            (254u8, 242u8, 242u8), (254u8, 226u8, 226u8), (254u8, 202u8, 202u8), (252u8, 165u8, 165u8),
            (248u8, 113u8, 113u8), (239u8, 68u8, 68u8), (220u8, 38u8, 38u8), (185u8, 28u8, 28u8),
            (153u8, 27u8, 27u8), (127u8, 29u8, 29u8), (69u8, 10u8, 10u8),
        ],
        Family::Orange => seq![
            (255u8, 247u8, 237u8), (255u8, 237u8, 213u8), (254u8, 215u8, 170u8), (253u8, 186u8, 116u8),
            (251u8, 146u8, 60u8), (249u8, 115u8, 22u8), (234u8, 88u8, 12u8), (194u8, 65u8, 12u8),
            (154u8, 52u8, 18u8), (124u8, 45u8, 18u8), (67u8, 20u8, 7u8),
        ],
        Family::Amber => seq![
            (255u8, 251u8, 235u8), (254u8, 243u8, 199u8), (253u8, 230u8, 138u8), (252u8, 211u8, 77u8),
            (251u8, 191u8, 36u8), (245u8, 158u8, 11u8), (217u8, 119u8, 6u8), (180u8, 83u8, 9u8),
            (146u8, 64u8, 14u8), (120u8, 53u8, 15u8), (69u8, 26u8, 3u8),
        ],
        Family::Yellow => seq![
            (254u8, 252u8, 232u8), (254u8, 249u8, 195u8), (254u8, 240u8, 138u8), (253u8, 224u8, 71u8),
            (250u8, 204u8, 21u8), (234u8, 179u8, 8u8), (202u8, 138u8, 4u8), (161u8, 98u8, 7u8),
            (133u8, 77u8, 14u8), (113u8, 63u8, 18u8), (66u8, 32u8, 6u8),
        ],
        Family::Lime => seq![
            (247u8, 254u8, 231u8), (236u8, 252u8, 203u8), (217u8, 249u8, 157u8), (190u8, 242u8, 100u8),
            (163u8, 230u8, 53u8), (132u8, 204u8, 22u8), (101u8, 163u8, 13u8), (77u8, 124u8, 15u8),
            (63u8, 98u8, 18u8), (54u8, 83u8, 20u8), (26u8, 46u8, 5u8),
        ],
        Family::Green => seq![
            (240u8, 253u8, 244u8), (220u8, 252u8, 231u8), (187u8, 247u8, 208u8), (134u8, 239u8, 172u8),
            (74u8, 222u8, 128u8), (34u8, 197u8, 94u8), (22u8, 163u8, 74u8), (21u8, 128u8, 61u8),
            (22u8, 101u8, 52u8), (20u8, 83u8, 45u8), (5u8, 46u8, 22u8),
        ],
        Family::Emerald => seq![
            (236u8, 253u8, 245u8), (209u8, 250u8, 229u8), (167u8, 243u8, 208u8), (110u8, 231u8, 183u8),
            (52u8, 211u8, 153u8), (16u8, 185u8, 129u8), (5u8, 150u8, 105u8), (4u8, 120u8, 87u8),
            (6u8, 95u8, 70u8), (6u8, 78u8, 59u8), (2u8, 44u8, 34u8),
        ],
        Family::Teal => seq![
            (240u8, 253u8, 250u8), (204u8, 251u8, 241u8), (153u8, 246u8, 228u8), (94u8, 234u8, 212u8),
            (45u8, 212u8, 191u8), (20u8, 184u8, 166u8), (13u8, 148u8, 136u8), (15u8, 118u8, 110u8),
            (17u8, 94u8, 89u8), (19u8, 78u8, 74u8), (4u8, 47u8, 46u8),
        ],
        Family::Cyan => seq![
            (236u8, 254u8, 255u8), (207u8, 250u8, 254u8), (165u8, 243u8, 252u8), (103u8, 232u8, 249u8),
            (34u8, 211u8, 238u8), (6u8, 182u8, 212u8), (8u8, 145u8, 178u8), (14u8, 116u8, 144u8),
            (21u8, 94u8, 117u8), (22u8, 78u8, 99u8), (8u8, 51u8, 68u8),
        ],
        Family::Sky => seq![
            (240u8, 249u8, 255u8), (224u8, 242u8, 254u8), (186u8, 230u8, 253u8), (125u8, 211u8, 252u8),
            (56u8, 189u8, 248u8), (14u8, 165u8, 233u8), (2u8, 132u8, 199u8), (3u8, 105u8, 161u8),
            (7u8, 89u8, 133u8), (12u8, 74u8, 110u8), (8u8, 47u8, 73u8),
        ],
        Family::Blue => seq![
            (239u8, 246u8, 255u8), (219u8, 234u8, 254u8), (191u8, 219u8, 254u8), (147u8, 197u8, 253u8),
            (96u8, 165u8, 250u8), (59u8, 130u8, 246u8), (37u8, 99u8, 235u8), (29u8, 78u8, 216u8),
            (30u8, 64u8, 175u8), (30u8, 58u8, 138u8), (23u8, 37u8, 84u8),
        ],
        Family::Indigo => seq![
            (238u8, 242u8, 255u8), (224u8, 231u8, 255u8), (199u8, 210u8, 254u8), (165u8, 180u8, 252u8),
            (129u8, 140u8, 248u8), (99u8, 102u8, 241u8), (79u8, 70u8, 229u8), (67u8, 56u8, 202u8),
            (55u8, 48u8, 163u8), (49u8, 46u8, 129u8), (30u8, 27u8, 75u8),
        ],
        Family::Violet => seq![
            (245u8, 243u8, 255u8), (237u8, 233u8, 254u8), (221u8, 214u8, 254u8), (196u8, 181u8, 253u8),
            (167u8, 139u8, 250u8), (139u8, 92u8, 246u8), (124u8, 58u8, 237u8), (109u8, 40u8, 217u8),
            (91u8, 33u8, 182u8), (76u8, 29u8, 149u8), (46u8, 16u8, 101u8),
        ],
        Family::Purple => seq![
            (250u8, 245u8, 255u8), (243u8, 232u8, 255u8), (233u8, 213u8, 255u8), (216u8, 180u8, 254u8),
            (192u8, 132u8, 252u8), (168u8, 85u8, 247u8), (147u8, 51u8, 234u8), (126u8, 34u8, 206u8),
            (107u8, 33u8, 168u8), (88u8, 28u8, 135u8), (59u8, 7u8, 100u8),
        ],
        Family::Fuchsia => seq![
            (253u8, 244u8, 255u8), (250u8, 232u8, 255u8), (245u8, 208u8, 254u8), (240u8, 171u8, 252u8),
            (232u8, 121u8, 249u8), (217u8, 70u8, 239u8), (192u8, 38u8, 211u8), (162u8, 28u8, 175u8),
            (134u8, 25u8, 143u8), (112u8, 26u8, 117u8), (74u8, 4u8, 78u8),
        ],
        Family::Pink => seq![
            (253u8, 242u8, 248u8), (252u8, 231u8, 243u8), (251u8, 207u8, 232u8), (249u8, 168u8, 212u8),
            (244u8, 114u8, 182u8), (236u8, 72u8, 153u8), (219u8, 39u8, 119u8), (190u8, 24u8, 93u8),
            (157u8, 23u8, 77u8), (131u8, 24u8, 67u8), (80u8, 7u8, 36u8),
        ],
        Family::Rose => seq![
            (255u8, 241u8, 242u8), (255u8, 228u8, 230u8), (254u8, 205u8, 211u8), (253u8, 164u8, 175u8),
            (251u8, 113u8, 133u8), (244u8, 63u8, 94u8), (225u8, 29u8, 72u8), (190u8, 18u8, 60u8),
            (159u8, 18u8, 57u8), (136u8, 19u8, 55u8), (76u8, 5u8, 25u8),
        ],
    }
}

fn shade_rgb(f: Family, i: usize) -> (r: (u8, u8, u8))
    requires
        i < 11,
    ensures
        r == shades(f)[i as int],
{
    let table: [(u8, u8, u8); 11] = match f {
        Family::Slate => [
            (248, 250, 252), (241, 245, 249), (226, 232, 240), (203, 213, 225),
            (148, 163, 184), (100, 116, 139), (71, 85, 105), (51, 65, 85),
            (30, 41, 59), (15, 23, 42), (2, 6, 23),
        ],
        Family::Gray => [
            (249, 250, 251), (243, 244, 246), (229, 231, 235), (209, 213, 219),
            (156, 163, 175), (107, 114, 128), (75, 85, 99), (55, 65, 81),
            (31, 41, 55), (17, 24, 39), (3, 7, 18),
        ],
        Family::Zinc => [
            (250, 250, 250), (244, 244, 245), (228, 228, 231), (212, 212, 216),
            (161, 161, 170), (113, 113, 122), (82, 82, 91), (63, 63, 70),
            (39, 39, 42), (24, 24, 27), (9, 9, 11),
        ],
        Family::Neutral => [
            (250, 250, 250), (245, 245, 245), (229, 229, 229), (212, 212, 212),
            (163, 163, 163), (115, 115, 115), (82, 82, 82), (64, 64, 64),
            (38, 38, 38), (23, 23, 23), (10, 10, 10),
        ],
        Family::Stone => [
            (250, 250, 249), (245, 245, 244), (231, 229, 228), (214, 211, 209),
            (168, 162, 158), (120, 113, 108), (87, 83, 78), (68, 64, 60),
            (41, 37, 36), (28, 25, 23), (12, 10, 9),
        ],
        Family::Red => [
            (254, 242, 242), (254, 226, 226), (254, 202, 202), (252, 165, 165),
            (248, 113, 113), (239, 68, 68), (220, 38, 38), (185, 28, 28),
            (153, 27, 27), (127, 29, 29), (69, 10, 10),
        ],
        Family::Orange => [
            (255, 247, 237), (255, 237, 213), (254, 215, 170), (253, 186, 116),
            (251, 146, 60), (249, 115, 22), (234, 88, 12), (194, 65, 12),
            (154, 52, 18), (124, 45, 18), (67, 20, 7),
        ],
        Family::Amber => [
            (255, 251, 235), (254, 243, 199), (253, 230, 138), (252, 211, 77),
            (251, 191, 36), (245, 158, 11), (217, 119, 6), (180, 83, 9),
            (146, 64, 14), (120, 53, 15), (69, 26, 3),
        ],
        Family::Yellow => [
            (254, 252, 232), (254, 249, 195), (254, 240, 138), (253, 224, 71),
            (250, 204, 21), (234, 179, 8), (202, 138, 4), (161, 98, 7),
            (133, 77, 14), (113, 63, 18), (66, 32, 6),
        ],
        Family::Lime => [
            (247, 254, 231), (236, 252, 203), (217, 249, 157), (190, 242, 100),
            (163, 230, 53), (132, 204, 22), (101, 163, 13), (77, 124, 15),
            (63, 98, 18), (54, 83, 20), (26, 46, 5),
        ],
        Family::Green => [
            (240, 253, 244), (220, 252, 231), (187, 247, 208), (134, 239, 172),
            (74, 222, 128), (34, 197, 94), (22, 163, 74), (21, 128, 61),
            (22, 101, 52), (20, 83, 45), (5, 46, 22),
        ],
        Family::Emerald => [
            (236, 253, 245), (209, 250, 229), (167, 243, 208), (110, 231, 183),
            (52, 211, 153), (16, 185, 129), (5, 150, 105), (4, 120, 87),
            (6, 95, 70), (6, 78, 59), (2, 44, 34),
        ],
        Family::Teal => [
            (240, 253, 250), (204, 251, 241), (153, 246, 228), (94, 234, 212),
            (45, 212, 191), (20, 184, 166), (13, 148, 136), (15, 118, 110),
            (17, 94, 89), (19, 78, 74), (4, 47, 46),
        ],
        Family::Cyan => [
            (236, 254, 255), (207, 250, 254), (165, 243, 252), (103, 232, 249),
            (34, 211, 238), (6, 182, 212), (8, 145, 178), (14, 116, 144),
            (21, 94, 117), (22, 78, 99), (8, 51, 68),
        ],
        Family::Sky => [
            (240, 249, 255), (224, 242, 254), (186, 230, 253), (125, 211, 252),
            (56, 189, 248), (14, 165, 233), (2, 132, 199), (3, 105, 161),
            (7, 89, 133), (12, 74, 110), (8, 47, 73),
        ],
        Family::Blue => [
            (239, 246, 255), (219, 234, 254), (191, 219, 254), (147, 197, 253),
            (96, 165, 250), (59, 130, 246), (37, 99, 235), (29, 78, 216),
            (30, 64, 175), (30, 58, 138), (23, 37, 84),
        ],
        Family::Indigo => [
            (238, 242, 255), (224, 231, 255), (199, 210, 254), (165, 180, 252),
            (129, 140, 248), (99, 102, 241), (79, 70, 229), (67, 56, 202),
            (55, 48, 163), (49, 46, 129), (30, 27, 75),
        ],
        Family::Violet => [
            (245, 243, 255), (237, 233, 254), (221, 214, 254), (196, 181, 253),
            (167, 139, 250), (139, 92, 246), (124, 58, 237), (109, 40, 217),
            (91, 33, 182), (76, 29, 149), (46, 16, 101),
        ],
        Family::Purple => [
            (250, 245, 255), (243, 232, 255), (233, 213, 255), (216, 180, 254),
            (192, 132, 252), (168, 85, 247), (147, 51, 234), (126, 34, 206),
            (107, 33, 168), (88, 28, 135), (59, 7, 100),
        ],
        Family::Fuchsia => [
            (253, 244, 255), (250, 232, 255), (245, 208, 254), (240, 171, 252),
            (232, 121, 249), (217, 70, 239), (192, 38, 211), (162, 28, 175),
            (134, 25, 143), (112, 26, 117), (74, 4, 78),
        ],
        Family::Pink => [
            (253, 242, 248), (252, 231, 243), (251, 207, 232), (249, 168, 212),
            (244, 114, 182), (236, 72, 153), (219, 39, 119), (190, 24, 93),
            (157, 23, 77), (131, 24, 67), (80, 7, 36),
        ],
        Family::Rose => [
            (255, 241, 242), (255, 228, 230), (254, 205, 211), (253, 164, 175),
            (251, 113, 133), (244, 63, 94), (225, 29, 72), (190, 18, 60),
            (159, 18, 57), (136, 19, 55), (76, 5, 25),
        ],
    };
    table[i]
}

/// The channels a colour name denotes: `black`, `white`, or a family and a
/// shade joined by `-`.
pub open spec fn named_rgb(s: Seq<char>) -> Option<(u8, u8, u8)> {
    if s == "black"@ {
        Some((0u8, 0u8, 0u8))
    } else if s == "white"@ {
        Some((255u8, 255u8, 255u8))
    } else {
        match first_index_of(s, '-') {
            None => None,
            Some(k) => match (
                family_named(s.subrange(0, k)),
                shade_named(s.subrange(k + 1, s.len() as int)),
            ) {
                (Some(f), Some(i)) => Some(shades(f)[i as int]),
                _ => None,
            },
        }
    }
}

/// A colour token body: a colour name, optionally followed by `/` and an
/// alpha between 0 and 255 (an optional `+`, then digits); the alpha
/// defaults to 255.
pub open spec fn color_value(s: Seq<char>) -> Option<Rgba> {
    let (name, alpha) = match first_index_of(s, '/') {
        None => (s, Some(255nat)),
        Some(k) => (s.subrange(0, k), unsigned_value(s.subrange(k + 1, s.len() as int), 255)),
    };
    match (named_rgb(name), alpha) {
        (Some(c), Some(a)) => Some(Rgba { r: c.0, g: c.1, b: c.2, a: a as u8 }),
        _ => None,
    }
}

fn rgb_named(s: &Vec<char>) -> (r: Option<(u8, u8, u8)>)
    ensures
        r == named_rgb(s@),
{
    if eq_lit(s, "black") {
        return Some((0, 0, 0));
    }
    if eq_lit(s, "white") {
        return Some((255, 255, 255));
    }
    match find_char(s, '-') {
        None => None,
        Some(k) => {
            proof {
                lemma_first_index_of(s@, '-');
            }
            let n = s.len();
            let fam = family_of(&slice(s, 0, k));
            let shade = shade_of(&slice(s, k + 1, n));
            match (fam, shade) {
                (Some(f), Some(i)) => {
                    proof {
                        reveal_strlit("50");
                    }
                    Some(shade_rgb(f, i))
                },
                _ => None,
            }
        },
    }
}

/// Parses a colour token body such as `red-500` or `red-500/128`.
pub fn parse_color(s: &Vec<char>) -> (r: Option<Rgba>)
    ensures
        r == color_value(s@),
{
    let n = s.len();
    let (name, alpha) = match find_char(s, '/') {
        None => {
            assert(s@.subrange(0, n as int) == s@);
            (slice(s, 0, n), Some(255u64))
        },
        Some(k) => {
            proof {
                lemma_first_index_of(s@, '/');
            }
            (slice(s, 0, k), parse_unsigned(s, k + 1, n, 255))
        },
    };
    match (rgb_named(&name), alpha) {
        (Some(c), Some(a)) => Some(Rgba { r: c.0, g: c.1, b: c.2, a: a as u8 }),
        _ => None,
    }
}

} // verus!
