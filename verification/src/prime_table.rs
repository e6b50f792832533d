//! The primes among the odd numbers from 3 to 2049, entry by entry.
//!
//! Each prime is shown by trial division, each other number by its smallest
//! factor. Every step carries the number of primes found so far, which
//! ends at 308.

use vstd::prelude::*;
use crate::sieve::{
    divides, is_prime, lemma_trial_division, no_small_factor, odd_number, odd_primes,
};

verus! {

/// Entry `b` stands for a prime, which adds one to the `found` primes
/// before it.
proof fn prime_at(b: nat, found: nat)
    requires
        b < 1024,
        no_small_factor(odd_number(b as int)),
        odd_primes(b) == found,
    ensures
        odd_primes(b + 1) == found + 1,
{
    lemma_trial_division(odd_number(b as int));
}

/// Entry `b` stands for a multiple of `d`, which leaves the `found` primes
/// before it as they are.
proof fn factor_at(b: nat, d: int, found: nat)
    requires
        2 <= d < odd_number(b as int),
        odd_number(b as int) % d == 0,
        odd_primes(b) == found,
    ensures
        odd_primes(b + 1) == found,
{
    reveal(is_prime);
    assert(divides(d, odd_number(b as int)));
}

/// Entries 0 to 63 stand for 30 primes.
proof fn count_below_64()
    ensures
        odd_primes(64) == 30,
{
    prime_at(0, 0); prime_at(1, 1); prime_at(2, 2); factor_at(3, 3, 3); prime_at(4, 3);
    prime_at(5, 4); factor_at(6, 3, 5); prime_at(7, 5); prime_at(8, 6); factor_at(9, 3, 7);
    prime_at(10, 7); factor_at(11, 5, 8); factor_at(12, 3, 8); prime_at(13, 8); prime_at(14, 9);
    factor_at(15, 3, 10); factor_at(16, 5, 10); prime_at(17, 10); factor_at(18, 3, 11);
    prime_at(19, 11); prime_at(20, 12); factor_at(21, 3, 13); prime_at(22, 13);
    factor_at(23, 7, 14); factor_at(24, 3, 14); prime_at(25, 14); factor_at(26, 5, 15);
    factor_at(27, 3, 15); prime_at(28, 15); prime_at(29, 16); factor_at(30, 3, 17);
    factor_at(31, 5, 17); prime_at(32, 17); factor_at(33, 3, 18); prime_at(34, 18);
    prime_at(35, 19); factor_at(36, 3, 20); factor_at(37, 7, 20); prime_at(38, 20);
    factor_at(39, 3, 21); prime_at(40, 21); factor_at(41, 5, 22); factor_at(42, 3, 22);
    prime_at(43, 22); factor_at(44, 7, 23); factor_at(45, 3, 23); factor_at(46, 5, 23);
    prime_at(47, 23); factor_at(48, 3, 24); prime_at(49, 24); prime_at(50, 25);
    factor_at(51, 3, 26); prime_at(52, 26); prime_at(53, 27); factor_at(54, 3, 28);
    prime_at(55, 28); factor_at(56, 5, 29); factor_at(57, 3, 29); factor_at(58, 7, 29);
    factor_at(59, 11, 29); factor_at(60, 3, 29); factor_at(61, 5, 29); prime_at(62, 29);
    factor_at(63, 3, 30);
}

/// Entries 64 to 127 stand for 24 primes.
proof fn count_below_128()
    ensures
        odd_primes(128) == 54,
{
    count_below_64();
    prime_at(64, 30); factor_at(65, 7, 31); factor_at(66, 3, 31); prime_at(67, 31);
    prime_at(68, 32); factor_at(69, 3, 33); factor_at(70, 11, 33); factor_at(71, 5, 33);
    factor_at(72, 3, 33); prime_at(73, 33); prime_at(74, 34); factor_at(75, 3, 35);
    factor_at(76, 5, 35); prime_at(77, 35); factor_at(78, 3, 36); factor_at(79, 7, 36);
    prime_at(80, 36); factor_at(81, 3, 37); prime_at(82, 37); factor_at(83, 13, 38);
    factor_at(84, 3, 38); prime_at(85, 38); factor_at(86, 5, 39); factor_at(87, 3, 39);
    prime_at(88, 39); prime_at(89, 40); factor_at(90, 3, 41); factor_at(91, 5, 41);
    factor_at(92, 11, 41); factor_at(93, 3, 41); prime_at(94, 41); prime_at(95, 42);
    factor_at(96, 3, 43); prime_at(97, 43); prime_at(98, 44); factor_at(99, 3, 45);
    factor_at(100, 7, 45); factor_at(101, 5, 45); factor_at(102, 3, 45); factor_at(103, 11, 45);
    prime_at(104, 45); factor_at(105, 3, 46); factor_at(106, 5, 46); factor_at(107, 7, 46);
    factor_at(108, 3, 46); factor_at(109, 13, 46); prime_at(110, 46); factor_at(111, 3, 47);
    prime_at(112, 47); prime_at(113, 48); factor_at(114, 3, 49); prime_at(115, 49);
    factor_at(116, 5, 50); factor_at(117, 3, 50); prime_at(118, 50); prime_at(119, 51);
    factor_at(120, 3, 52); factor_at(121, 5, 52); factor_at(122, 13, 52); factor_at(123, 3, 52);
    prime_at(124, 52); factor_at(125, 11, 53); factor_at(126, 3, 53); prime_at(127, 53);
}

/// Entries 128 to 191 stand for 21 primes.
proof fn count_below_192()
    ensures
        odd_primes(192) == 75,
{
    count_below_128();
    factor_at(128, 7, 54); factor_at(129, 3, 54); prime_at(130, 54); factor_at(131, 5, 55);
    factor_at(132, 3, 55); prime_at(133, 55); prime_at(134, 56); factor_at(135, 3, 57);
    factor_at(136, 5, 57); prime_at(137, 57); factor_at(138, 3, 58); prime_at(139, 58);
    prime_at(140, 59); factor_at(141, 3, 60); factor_at(142, 7, 60); factor_at(143, 17, 60);
    factor_at(144, 3, 60); prime_at(145, 60); factor_at(146, 5, 61); factor_at(147, 3, 61);
    factor_at(148, 13, 61); factor_at(149, 7, 61); factor_at(150, 3, 61); factor_at(151, 5, 61);
    prime_at(152, 61); factor_at(153, 3, 62); prime_at(154, 62); prime_at(155, 63);
    factor_at(156, 3, 64); prime_at(157, 64); factor_at(158, 11, 65); factor_at(159, 3, 65);
    factor_at(160, 17, 65); factor_at(161, 5, 65); factor_at(162, 3, 65); factor_at(163, 7, 65);
    prime_at(164, 65); factor_at(165, 3, 66); factor_at(166, 5, 66); prime_at(167, 66);
    factor_at(168, 3, 67); factor_at(169, 11, 67); factor_at(170, 7, 67); factor_at(171, 3, 67);
    prime_at(172, 67); prime_at(173, 68); factor_at(174, 3, 69); prime_at(175, 69);
    factor_at(176, 5, 70); factor_at(177, 3, 70); prime_at(178, 70); factor_at(179, 19, 71);
    factor_at(180, 3, 71); factor_at(181, 5, 71); prime_at(182, 71); factor_at(183, 3, 72);
    factor_at(184, 7, 72); prime_at(185, 72); factor_at(186, 3, 73); factor_at(187, 13, 73);
    prime_at(188, 73); factor_at(189, 3, 74); prime_at(190, 74); factor_at(191, 5, 75);
}

/// Entries 192 to 255 stand for 21 primes.
proof fn count_below_256()
    ensures
        odd_primes(256) == 96,
{
    count_below_192();
    factor_at(192, 3, 75); prime_at(193, 75); factor_at(194, 17, 76); factor_at(195, 3, 76);
    factor_at(196, 5, 76); prime_at(197, 76); factor_at(198, 3, 77); prime_at(199, 77);
    factor_at(200, 13, 78); factor_at(201, 3, 78); factor_at(202, 11, 78); prime_at(203, 78);
    factor_at(204, 3, 79); factor_at(205, 7, 79); factor_at(206, 5, 79); factor_at(207, 3, 79);
    prime_at(208, 79); prime_at(209, 80); factor_at(210, 3, 81); factor_at(211, 5, 81);
    factor_at(212, 7, 81); factor_at(213, 3, 81); prime_at(214, 81); prime_at(215, 82);
    factor_at(216, 3, 83); factor_at(217, 19, 83); prime_at(218, 83); factor_at(219, 3, 84);
    prime_at(220, 84); factor_at(221, 5, 85); factor_at(222, 3, 85); prime_at(223, 85);
    factor_at(224, 11, 86); factor_at(225, 3, 86); factor_at(226, 5, 86); prime_at(227, 86);
    factor_at(228, 3, 87); prime_at(229, 87); prime_at(230, 88); factor_at(231, 3, 89);
    prime_at(232, 89); factor_at(233, 7, 90); factor_at(234, 3, 90); factor_at(235, 11, 90);
    factor_at(236, 5, 90); factor_at(237, 3, 90); prime_at(238, 90); factor_at(239, 13, 91);
    factor_at(240, 3, 91); factor_at(241, 5, 91); prime_at(242, 91); factor_at(243, 3, 92);
    prime_at(244, 92); factor_at(245, 17, 93); factor_at(246, 3, 93); factor_at(247, 7, 93);
    prime_at(248, 93); factor_at(249, 3, 94); prime_at(250, 94); factor_at(251, 5, 95);
    factor_at(252, 3, 95); prime_at(253, 95); factor_at(254, 7, 96); factor_at(255, 3, 96);
}

/// Entries 256 to 319 stand for 19 primes.
proof fn count_below_320()
    ensures
        odd_primes(320) == 115,
{
    count_below_256();
    factor_at(256, 5, 96); factor_at(257, 11, 96); factor_at(258, 3, 96); prime_at(259, 96);
    prime_at(260, 97); factor_at(261, 3, 98); factor_at(262, 17, 98); factor_at(263, 23, 98);
    factor_at(264, 3, 98); factor_at(265, 13, 98); factor_at(266, 5, 98); factor_at(267, 3, 98);
    factor_at(268, 7, 98); prime_at(269, 98); factor_at(270, 3, 99); factor_at(271, 5, 99);
    prime_at(272, 99); factor_at(273, 3, 100); factor_at(274, 19, 100); factor_at(275, 7, 100);
    factor_at(276, 3, 100); prime_at(277, 100); factor_at(278, 13, 101); factor_at(279, 3, 101);
    prime_at(280, 101); factor_at(281, 5, 102); factor_at(282, 3, 102); prime_at(283, 102);
    prime_at(284, 103); factor_at(285, 3, 104); factor_at(286, 5, 104); prime_at(287, 104);
    factor_at(288, 3, 105); factor_at(289, 7, 105); factor_at(290, 11, 105);
    factor_at(291, 3, 105); prime_at(292, 105); factor_at(293, 19, 106); factor_at(294, 3, 106);
    prime_at(295, 106); factor_at(296, 5, 107); factor_at(297, 3, 107); prime_at(298, 107);
    prime_at(299, 108); factor_at(300, 3, 109); factor_at(301, 5, 109); prime_at(302, 109);
    factor_at(303, 3, 110); factor_at(304, 13, 110); prime_at(305, 110); factor_at(306, 3, 111);
    prime_at(307, 111); prime_at(308, 112); factor_at(309, 3, 113); factor_at(310, 7, 113);
    factor_at(311, 5, 113); factor_at(312, 3, 113); factor_at(313, 17, 113); prime_at(314, 113);
    factor_at(315, 3, 114); factor_at(316, 5, 114); factor_at(317, 7, 114);
    factor_at(318, 3, 114); prime_at(319, 114);
}

/// Entries 320 to 383 stand for 20 primes.
proof fn count_below_384()
    ensures
        odd_primes(384) == 135,
{
    count_below_320();
    prime_at(320, 115); factor_at(321, 3, 116); prime_at(322, 116); factor_at(323, 11, 117);
    factor_at(324, 3, 117); prime_at(325, 117); factor_at(326, 5, 118); factor_at(327, 3, 118);
    prime_at(328, 118); prime_at(329, 119); factor_at(330, 3, 120); factor_at(331, 5, 120);
    factor_at(332, 23, 120); factor_at(333, 3, 120); factor_at(334, 11, 120);
    prime_at(335, 120); factor_at(336, 3, 121); prime_at(337, 121); factor_at(338, 7, 122);
    factor_at(339, 3, 122); prime_at(340, 122); factor_at(341, 5, 123); factor_at(342, 3, 123);
    factor_at(343, 13, 123); prime_at(344, 123); factor_at(345, 3, 124); factor_at(346, 5, 124);
    factor_at(347, 17, 124); factor_at(348, 3, 124); prime_at(349, 124);
    factor_at(350, 19, 125); factor_at(351, 3, 125); factor_at(352, 7, 125); prime_at(353, 125);
    factor_at(354, 3, 126); factor_at(355, 23, 126); factor_at(356, 5, 126);
    factor_at(357, 3, 126); prime_at(358, 126); factor_at(359, 7, 127); factor_at(360, 3, 127);
    factor_at(361, 5, 127); prime_at(362, 127); factor_at(363, 3, 128); factor_at(364, 17, 128);
    prime_at(365, 128); factor_at(366, 3, 129); factor_at(367, 11, 129); prime_at(368, 129);
    factor_at(369, 3, 130); prime_at(370, 130); factor_at(371, 5, 131); factor_at(372, 3, 131);
    factor_at(373, 7, 131); prime_at(374, 131); factor_at(375, 3, 132); factor_at(376, 5, 132);
    prime_at(377, 132); factor_at(378, 3, 133); prime_at(379, 133); factor_at(380, 7, 134);
    factor_at(381, 3, 134); factor_at(382, 13, 134); prime_at(383, 134);
}

/// Entries 384 to 447 stand for 18 primes.
proof fn count_below_448()
    ensures
        odd_primes(448) == 153,
{
    count_below_384();
    factor_at(384, 3, 135); prime_at(385, 135); factor_at(386, 5, 136); factor_at(387, 3, 136);
    factor_at(388, 19, 136); factor_at(389, 11, 136); factor_at(390, 3, 136);
    factor_at(391, 5, 136); prime_at(392, 136); factor_at(393, 3, 137); factor_at(394, 7, 137);
    factor_at(395, 13, 137); factor_at(396, 3, 137); prime_at(397, 137);
    factor_at(398, 17, 138); factor_at(399, 3, 138); factor_at(400, 11, 138);
    factor_at(401, 5, 138); factor_at(402, 3, 138); prime_at(403, 138); prime_at(404, 139);
    factor_at(405, 3, 140); factor_at(406, 5, 140); factor_at(407, 19, 140);
    factor_at(408, 3, 140); prime_at(409, 140); prime_at(410, 141); factor_at(411, 3, 142);
    prime_at(412, 142); prime_at(413, 143); factor_at(414, 3, 144); factor_at(415, 7, 144);
    factor_at(416, 5, 144); factor_at(417, 3, 144); prime_at(418, 144); factor_at(419, 29, 145);
    factor_at(420, 3, 145); factor_at(421, 5, 145); factor_at(422, 7, 145);
    factor_at(423, 3, 145); factor_at(424, 23, 145); prime_at(425, 145); factor_at(426, 3, 146);
    prime_at(427, 146); prime_at(428, 147); factor_at(429, 3, 148); prime_at(430, 148);
    factor_at(431, 5, 149); factor_at(432, 3, 149); factor_at(433, 11, 149);
    factor_at(434, 13, 149); factor_at(435, 3, 149); factor_at(436, 5, 149); prime_at(437, 149);
    factor_at(438, 3, 150); prime_at(439, 150); prime_at(440, 151); factor_at(441, 3, 152);
    prime_at(442, 152); factor_at(443, 7, 153); factor_at(444, 3, 153); factor_at(445, 19, 153);
    factor_at(446, 5, 153); factor_at(447, 3, 153);
}

/// Entries 448 to 511 stand for 18 primes.
proof fn count_below_512()
    ensures
        odd_primes(512) == 171,
{
    count_below_448();
    factor_at(448, 29, 153); factor_at(449, 17, 153); factor_at(450, 3, 153);
    factor_at(451, 5, 153); prime_at(452, 153); factor_at(453, 3, 154); prime_at(454, 154);
    factor_at(455, 11, 155); factor_at(456, 3, 155); factor_at(457, 7, 155); prime_at(458, 155);
    factor_at(459, 3, 156); factor_at(460, 13, 156); factor_at(461, 5, 156);
    factor_at(462, 3, 156); prime_at(463, 156); factor_at(464, 7, 157); factor_at(465, 3, 157);
    factor_at(466, 5, 157); prime_at(467, 157); factor_at(468, 3, 158); prime_at(469, 158);
    factor_at(470, 23, 159); factor_at(471, 3, 159); prime_at(472, 159);
    factor_at(473, 13, 160); factor_at(474, 3, 160); prime_at(475, 160); factor_at(476, 5, 161);
    factor_at(477, 3, 161); factor_at(478, 7, 161); factor_at(479, 31, 161);
    factor_at(480, 3, 161); factor_at(481, 5, 161); prime_at(482, 161); factor_at(483, 3, 162);
    prime_at(484, 162); factor_at(485, 7, 163); factor_at(486, 3, 163); prime_at(487, 163);
    factor_at(488, 11, 164); factor_at(489, 3, 164); prime_at(490, 164); factor_at(491, 5, 165);
    factor_at(492, 3, 165); factor_at(493, 23, 165); prime_at(494, 165); factor_at(495, 3, 166);
    factor_at(496, 5, 166); prime_at(497, 166); factor_at(498, 3, 167); factor_at(499, 7, 167);
    factor_at(500, 17, 167); factor_at(501, 3, 167); factor_at(502, 19, 167);
    prime_at(503, 167); factor_at(504, 3, 168); prime_at(505, 168); factor_at(506, 5, 169);
    factor_at(507, 3, 169); prime_at(508, 169); prime_at(509, 170); factor_at(510, 3, 171);
    factor_at(511, 5, 171);
}

/// Entries 512 to 575 stand for 19 primes.
proof fn count_below_576()
    ensures
        odd_primes(576) == 190,
{
    count_below_512();
    factor_at(512, 13, 171); factor_at(513, 3, 171); prime_at(514, 171); prime_at(515, 172);
    factor_at(516, 3, 173); factor_at(517, 17, 173); prime_at(518, 173); factor_at(519, 3, 174);
    factor_at(520, 7, 174); factor_at(521, 5, 174); factor_at(522, 3, 174); prime_at(523, 174);
    prime_at(524, 175); factor_at(525, 3, 176); factor_at(526, 5, 176); factor_at(527, 7, 176);
    factor_at(528, 3, 176); prime_at(529, 176); prime_at(530, 177); factor_at(531, 3, 178);
    factor_at(532, 11, 178); prime_at(533, 178); factor_at(534, 3, 179);
    factor_at(535, 29, 179); factor_at(536, 5, 179); factor_at(537, 3, 179);
    factor_at(538, 13, 179); factor_at(539, 23, 179); factor_at(540, 3, 179);
    factor_at(541, 5, 179); prime_at(542, 179); factor_at(543, 3, 180); prime_at(544, 180);
    prime_at(545, 181); factor_at(546, 3, 182); prime_at(547, 182); factor_at(548, 7, 183);
    factor_at(549, 3, 183); prime_at(550, 183); factor_at(551, 5, 184); factor_at(552, 3, 184);
    prime_at(553, 184); factor_at(554, 11, 185); factor_at(555, 3, 185); factor_at(556, 5, 185);
    prime_at(557, 185); factor_at(558, 3, 186); factor_at(559, 19, 186); prime_at(560, 186);
    factor_at(561, 3, 187); factor_at(562, 7, 187); prime_at(563, 187); factor_at(564, 3, 188);
    factor_at(565, 11, 188); factor_at(566, 5, 188); factor_at(567, 3, 188);
    factor_at(568, 17, 188); factor_at(569, 7, 188); factor_at(570, 3, 188);
    factor_at(571, 5, 188); factor_at(572, 31, 188); factor_at(573, 3, 188); prime_at(574, 188);
    prime_at(575, 189);
}

/// Entries 576 to 639 stand for 16 primes.
proof fn count_below_640()
    ensures
        odd_primes(640) == 206,
{
    count_below_576();
    factor_at(576, 3, 190); factor_at(577, 13, 190); factor_at(578, 19, 190);
    factor_at(579, 3, 190); prime_at(580, 190); factor_at(581, 5, 191); factor_at(582, 3, 191);
    factor_at(583, 7, 191); prime_at(584, 191); factor_at(585, 3, 192); factor_at(586, 5, 192);
    factor_at(587, 11, 192); factor_at(588, 3, 192); prime_at(589, 192); factor_at(590, 7, 193);
    factor_at(591, 3, 193); prime_at(592, 193); factor_at(593, 29, 194); factor_at(594, 3, 194);
    prime_at(595, 194); factor_at(596, 5, 195); factor_at(597, 3, 195); factor_at(598, 11, 195);
    prime_at(599, 195); factor_at(600, 3, 196); factor_at(601, 5, 196); factor_at(602, 17, 196);
    factor_at(603, 3, 196); factor_at(604, 7, 196); prime_at(605, 196); factor_at(606, 3, 197);
    prime_at(607, 197); factor_at(608, 23, 198); factor_at(609, 3, 198); prime_at(610, 198);
    factor_at(611, 5, 199); factor_at(612, 3, 199); prime_at(613, 199); prime_at(614, 200);
    factor_at(615, 3, 201); factor_at(616, 5, 201); prime_at(617, 201); factor_at(618, 3, 202);
    factor_at(619, 17, 202); factor_at(620, 11, 202); factor_at(621, 3, 202);
    factor_at(622, 29, 202); prime_at(623, 202); factor_at(624, 3, 203); factor_at(625, 7, 203);
    factor_at(626, 5, 203); factor_at(627, 3, 203); prime_at(628, 203); factor_at(629, 13, 204);
    factor_at(630, 3, 204); factor_at(631, 5, 204); factor_at(632, 7, 204);
    factor_at(633, 3, 204); factor_at(634, 31, 204); factor_at(635, 19, 204);
    factor_at(636, 3, 204); prime_at(637, 204); prime_at(638, 205); factor_at(639, 3, 206);
}

/// Entries 640 to 703 stand for 16 primes.
proof fn count_below_704()
    ensures
        odd_primes(704) == 222,
{
    count_below_640();
    prime_at(640, 206); factor_at(641, 5, 207); factor_at(642, 3, 207); prime_at(643, 207);
    prime_at(644, 208); factor_at(645, 3, 209); factor_at(646, 5, 209); prime_at(647, 209);
    factor_at(648, 3, 210); prime_at(649, 210); prime_at(650, 211); factor_at(651, 3, 212);
    prime_at(652, 212); factor_at(653, 7, 213); factor_at(654, 3, 213); factor_at(655, 13, 213);
    factor_at(656, 5, 213); factor_at(657, 3, 213); prime_at(658, 213); prime_at(659, 214);
    factor_at(660, 3, 215); factor_at(661, 5, 215); prime_at(662, 215); factor_at(663, 3, 216);
    factor_at(664, 11, 216); factor_at(665, 31, 216); factor_at(666, 3, 216);
    factor_at(667, 7, 216); factor_at(668, 13, 216); factor_at(669, 3, 216);
    factor_at(670, 17, 216); factor_at(671, 5, 216); factor_at(672, 3, 216);
    factor_at(673, 19, 216); factor_at(674, 7, 216); factor_at(675, 3, 216);
    factor_at(676, 5, 216); factor_at(677, 23, 216); factor_at(678, 3, 216); prime_at(679, 216);
    factor_at(680, 29, 217); factor_at(681, 3, 217); prime_at(682, 217);
    factor_at(683, 37, 218); factor_at(684, 3, 218); prime_at(685, 218); factor_at(686, 5, 219);
    factor_at(687, 3, 219); factor_at(688, 7, 219); prime_at(689, 219); factor_at(690, 3, 220);
    factor_at(691, 5, 220); factor_at(692, 19, 220); factor_at(693, 3, 220);
    factor_at(694, 13, 220); factor_at(695, 7, 220); factor_at(696, 3, 220);
    factor_at(697, 11, 220); prime_at(698, 220); factor_at(699, 3, 221);
    factor_at(700, 23, 221); factor_at(701, 5, 221); factor_at(702, 3, 221); prime_at(703, 221);
}

/// Entries 704 to 767 stand for 19 primes.
proof fn count_below_768()
    ensures
        odd_primes(768) == 241,
{
    count_below_704();
    factor_at(704, 17, 222); factor_at(705, 3, 222); factor_at(706, 5, 222);
    factor_at(707, 13, 222); factor_at(708, 3, 222); factor_at(709, 7, 222); prime_at(710, 222);
    factor_at(711, 3, 223); prime_at(712, 223); prime_at(713, 224); factor_at(714, 3, 225);
    prime_at(715, 225); factor_at(716, 5, 226); factor_at(717, 3, 226); prime_at(718, 226);
    factor_at(719, 11, 227); factor_at(720, 3, 227); factor_at(721, 5, 227); prime_at(722, 227);
    factor_at(723, 3, 228); prime_at(724, 228); prime_at(725, 229); factor_at(726, 3, 230);
    factor_at(727, 31, 230); prime_at(728, 230); factor_at(729, 3, 231); factor_at(730, 7, 231);
    factor_at(731, 5, 231); factor_at(732, 3, 231); factor_at(733, 13, 231); prime_at(734, 231);
    factor_at(735, 3, 232); factor_at(736, 5, 232); factor_at(737, 7, 232);
    factor_at(738, 3, 232); prime_at(739, 232); prime_at(740, 233); factor_at(741, 3, 234);
    prime_at(742, 234); prime_at(743, 235); factor_at(744, 3, 236); prime_at(745, 236);
    factor_at(746, 5, 237); factor_at(747, 3, 237); prime_at(748, 237); factor_at(749, 19, 238);
    factor_at(750, 3, 238); factor_at(751, 5, 238); factor_at(752, 11, 238);
    factor_at(753, 3, 238); prime_at(754, 238); factor_at(755, 17, 239); factor_at(756, 3, 239);
    factor_at(757, 37, 239); factor_at(758, 7, 239); factor_at(759, 3, 239); prime_at(760, 239);
    factor_at(761, 5, 240); factor_at(762, 3, 240); factor_at(763, 11, 240); prime_at(764, 240);
    factor_at(765, 3, 241); factor_at(766, 5, 241); factor_at(767, 29, 241);
}

/// Entries 768 to 831 stand for 19 primes.
proof fn count_below_832()
    ensures
        odd_primes(832) == 260,
{
    count_below_768();
    factor_at(768, 3, 241); factor_at(769, 23, 241); prime_at(770, 241); factor_at(771, 3, 242);
    factor_at(772, 7, 242); prime_at(773, 242); factor_at(774, 3, 243); prime_at(775, 243);
    factor_at(776, 5, 244); factor_at(777, 3, 244); prime_at(778, 244); factor_at(779, 7, 245);
    factor_at(780, 3, 245); factor_at(781, 5, 245); prime_at(782, 245); factor_at(783, 3, 246);
    prime_at(784, 246); factor_at(785, 11, 247); factor_at(786, 3, 247);
    factor_at(787, 19, 247); prime_at(788, 247); factor_at(789, 3, 248); prime_at(790, 248);
    factor_at(791, 5, 249); factor_at(792, 3, 249); factor_at(793, 7, 249);
    factor_at(794, 37, 249); factor_at(795, 3, 249); factor_at(796, 5, 249); prime_at(797, 249);
    factor_at(798, 3, 250); prime_at(799, 250); factor_at(800, 7, 251); factor_at(801, 3, 251);
    prime_at(802, 251); prime_at(803, 252); factor_at(804, 3, 253); prime_at(805, 253);
    factor_at(806, 5, 254); factor_at(807, 3, 254); prime_at(808, 254); prime_at(809, 255);
    factor_at(810, 3, 256); factor_at(811, 5, 256); prime_at(812, 256); factor_at(813, 3, 257);
    factor_at(814, 7, 257); factor_at(815, 23, 257); factor_at(816, 3, 257); prime_at(817, 257);
    factor_at(818, 11, 258); factor_at(819, 3, 258); factor_at(820, 31, 258);
    factor_at(821, 5, 258); factor_at(822, 3, 258); factor_at(823, 17, 258);
    factor_at(824, 13, 258); factor_at(825, 3, 258); factor_at(826, 5, 258); prime_at(827, 258);
    factor_at(828, 3, 259); factor_at(829, 11, 259); prime_at(830, 259); factor_at(831, 3, 260);
}

/// Entries 832 to 895 stand for 17 primes.
proof fn count_below_896()
    ensures
        odd_primes(896) == 277,
{
    count_below_832();
    prime_at(832, 260); prime_at(833, 261); factor_at(834, 3, 262); factor_at(835, 7, 262);
    factor_at(836, 5, 262); factor_at(837, 3, 262); factor_at(838, 23, 262);
    factor_at(839, 41, 262); factor_at(840, 3, 262); factor_at(841, 5, 262);
    factor_at(842, 7, 262); factor_at(843, 3, 262); factor_at(844, 19, 262); prime_at(845, 262);
    factor_at(846, 3, 263); prime_at(847, 263); prime_at(848, 264); factor_at(849, 3, 265);
    factor_at(850, 13, 265); factor_at(851, 5, 265); factor_at(852, 3, 265); prime_at(853, 265);
    factor_at(854, 29, 266); factor_at(855, 3, 266); factor_at(856, 5, 266);
    factor_at(857, 17, 266); factor_at(858, 3, 266); prime_at(859, 266); prime_at(860, 267);
    factor_at(861, 3, 268); factor_at(862, 11, 268); factor_at(863, 7, 268);
    factor_at(864, 3, 268); prime_at(865, 268); factor_at(866, 5, 269); factor_at(867, 3, 269);
    factor_at(868, 37, 269); prime_at(869, 269); factor_at(870, 3, 270); factor_at(871, 5, 270);
    prime_at(872, 270); factor_at(873, 3, 271); factor_at(874, 17, 271); prime_at(875, 271);
    factor_at(876, 3, 272); factor_at(877, 7, 272); prime_at(878, 272); factor_at(879, 3, 273);
    factor_at(880, 41, 273); factor_at(881, 5, 273); factor_at(882, 3, 273);
    factor_at(883, 29, 273); factor_at(884, 7, 273); factor_at(885, 3, 273);
    factor_at(886, 5, 273); prime_at(887, 273); factor_at(888, 3, 274); factor_at(889, 13, 274);
    prime_at(890, 274); factor_at(891, 3, 275); prime_at(892, 275); prime_at(893, 276);
    factor_at(894, 3, 277); factor_at(895, 11, 277);
}

/// Entries 896 to 959 stand for 15 primes.
proof fn count_below_960()
    ensures
        odd_primes(960) == 292,
{
    count_below_896();
    factor_at(896, 5, 277); factor_at(897, 3, 277); factor_at(898, 7, 277); prime_at(899, 277);
    factor_at(900, 3, 278); factor_at(901, 5, 278); factor_at(902, 13, 278);
    factor_at(903, 3, 278); prime_at(904, 278); factor_at(905, 7, 279); factor_at(906, 3, 279);
    factor_at(907, 23, 279); factor_at(908, 17, 279); factor_at(909, 3, 279);
    prime_at(910, 279); factor_at(911, 5, 280); factor_at(912, 3, 280); factor_at(913, 31, 280);
    prime_at(914, 280); factor_at(915, 3, 281); factor_at(916, 5, 281); factor_at(917, 11, 281);
    factor_at(918, 3, 281); factor_at(919, 7, 281); factor_at(920, 19, 281);
    factor_at(921, 3, 281); prime_at(922, 281); factor_at(923, 43, 282); factor_at(924, 3, 282);
    factor_at(925, 17, 282); factor_at(926, 5, 282); factor_at(927, 3, 282);
    factor_at(928, 11, 282); prime_at(929, 282); factor_at(930, 3, 283); factor_at(931, 5, 283);
    prime_at(932, 283); factor_at(933, 3, 284); prime_at(934, 284); prime_at(935, 285);
    factor_at(936, 3, 286); prime_at(937, 286); prime_at(938, 287); factor_at(939, 3, 288);
    factor_at(940, 7, 288); factor_at(941, 5, 288); factor_at(942, 3, 288); prime_at(943, 288);
    factor_at(944, 31, 289); factor_at(945, 3, 289); factor_at(946, 5, 289);
    factor_at(947, 7, 289); factor_at(948, 3, 289); prime_at(949, 289); factor_at(950, 11, 290);
    factor_at(951, 3, 290); prime_at(952, 290); factor_at(953, 23, 291); factor_at(954, 3, 291);
    prime_at(955, 291); factor_at(956, 5, 292); factor_at(957, 3, 292); factor_at(958, 19, 292);
    factor_at(959, 17, 292);
}

/// Entries 960 to 1023 stand for 16 primes.
proof fn count_below_1024()
    ensures
        odd_primes(1024) == 308,
{
    count_below_960();
    factor_at(960, 3, 292); factor_at(961, 5, 292); factor_at(962, 41, 292);
    factor_at(963, 3, 292); prime_at(964, 292); prime_at(965, 293); factor_at(966, 3, 294);
    factor_at(967, 13, 294); factor_at(968, 7, 294); factor_at(969, 3, 294);
    factor_at(970, 29, 294); factor_at(971, 5, 294); factor_at(972, 3, 294); prime_at(973, 294);
    prime_at(974, 295); factor_at(975, 3, 296); factor_at(976, 5, 296); factor_at(977, 19, 296);
    factor_at(978, 3, 296); factor_at(979, 37, 296); factor_at(980, 13, 296);
    factor_at(981, 3, 296); factor_at(982, 7, 296); factor_at(983, 11, 296);
    factor_at(984, 3, 296); prime_at(985, 296); factor_at(986, 5, 297); factor_at(987, 3, 297);
    prime_at(988, 297); factor_at(989, 7, 298); factor_at(990, 3, 298); factor_at(991, 5, 298);
    prime_at(992, 298); factor_at(993, 3, 299); factor_at(994, 11, 299); prime_at(995, 299);
    factor_at(996, 3, 300); prime_at(997, 300); prime_at(998, 301); factor_at(999, 3, 302);
    prime_at(1000, 302); factor_at(1001, 5, 303); factor_at(1002, 3, 303);
    factor_at(1003, 7, 303); prime_at(1004, 303); factor_at(1005, 3, 304);
    factor_at(1006, 5, 304); prime_at(1007, 304); factor_at(1008, 3, 305);
    factor_at(1009, 43, 305); factor_at(1010, 7, 305); factor_at(1011, 3, 305);
    prime_at(1012, 305); prime_at(1013, 306); factor_at(1014, 3, 307); factor_at(1015, 19, 307);
    factor_at(1016, 5, 307); factor_at(1017, 3, 307); prime_at(1018, 307);
    factor_at(1019, 13, 308); factor_at(1020, 3, 308); factor_at(1021, 5, 308);
    factor_at(1022, 23, 308); factor_at(1023, 3, 308);
}

/// There are 308 primes among the odd numbers from 3 to 2049.
pub proof fn lemma_odd_primes_total()
    ensures
        odd_primes(1024) == 308,
{
    count_below_1024();
}

} // verus!
