//! The proof that the mixing matrix and its inverse are inverses of each other,
//! carried out entry by entry on the two tables: each row of the product of the two
//! is written out and compared with the row of the identity.
use crate::accumulator::acc64::{is_canonical_state, mixed, row_dot, INV_MDS, MDS};
use crate::math::field64::F64;
use vstd::arithmetic::div_mod::*;
use vstd::prelude::*;

verus! {

/// A row product written out: the sum of the twelve products of the row `a` of a
/// matrix with the first twelve elements of a state.
proof fn lemma_row_dot_written_out(matrix: Seq<u64>, row: int, s: Seq<u64>)
    ensures
        row_dot(matrix, row, s, 12) == matrix[12 * row + 0] * s[0] + matrix[12 * row + 1] * s[1]
            + matrix[12 * row + 2] * s[2] + matrix[12 * row + 3] * s[3] + matrix[12 * row + 4]
            * s[4] + matrix[12 * row + 5] * s[5] + matrix[12 * row + 6] * s[6] + matrix[12 * row
            + 7] * s[7] + matrix[12 * row + 8] * s[8] + matrix[12 * row + 9] * s[9] + matrix[12
            * row + 10] * s[10] + matrix[12 * row + 11] * s[11],
{
    reveal_with_fuel(row_dot, 13);
}

/// A row product whose row is known, entry by entry.
proof fn lemma_row_dot_of_known_row(
    matrix: Seq<u64>,
    row: int,
    s: Seq<u64>,
    a0: int,
    a1: int,
    a2: int,
    a3: int,
    a4: int,
    a5: int,
    a6: int,
    a7: int,
    a8: int,
    a9: int,
    a10: int,
    a11: int,
)
    requires
        matrix[12 * row + 0] == a0,
        matrix[12 * row + 1] == a1,
        matrix[12 * row + 2] == a2,
        matrix[12 * row + 3] == a3,
        matrix[12 * row + 4] == a4,
        matrix[12 * row + 5] == a5,
        matrix[12 * row + 6] == a6,
        matrix[12 * row + 7] == a7,
        matrix[12 * row + 8] == a8,
        matrix[12 * row + 9] == a9,
        matrix[12 * row + 10] == a10,
        matrix[12 * row + 11] == a11,
    ensures
        row_dot(matrix, row, s, 12) == a0 * s[0] + a1 * s[1] + a2 * s[2] + a3 * s[3] + a4 * s[4]
            + a5 * s[5] + a6 * s[6] + a7 * s[7] + a8 * s[8] + a9 * s[9] + a10 * s[10] + a11
            * s[11],
{
    lemma_row_dot_written_out(matrix, row, s);
}

/// Row 0 of `MDS`.
proof fn lemma_mds_row_0()
    ensures
        MDS@[0] == 14570791697008582876,
        MDS@[1] == 14287730469917200292,
        MDS@[2] == 15111342538701370819,
        MDS@[3] == 1111401104756727833,
        MDS@[4] == 18343752991270580578,
        MDS@[5] == 10395724785100660355,
        MDS@[6] == 14391941175009286906,
        MDS@[7] == 5491581447267359356,
        MDS@[8] == 1031244057765854727,
        MDS@[9] == 2741392851187030668,
        MDS@[10] == 8356433820458919454,
        MDS@[11] == 10361960094523491469,
{
}

/// Row 1 of `MDS`.
proof fn lemma_mds_row_1()
    ensures
        MDS@[12] == 17296841519685941390,
        MDS@[13] == 1598937820631795543,
        MDS@[14] == 18252132164632030075,
        MDS@[15] == 241444688886262292,
        MDS@[16] == 17599434116007097224,
        MDS@[17] == 9231563221418652240,
        MDS@[18] == 15805688995498349990,
        MDS@[19] == 17256539972135898838,
        MDS@[20] == 2330753493485837824,
        MDS@[21] == 6251316318077619492,
        MDS@[22] == 7679024702804679152,
        MDS@[23] == 2943046310091653711,
{
}

/// Row 2 of `MDS`.
proof fn lemma_mds_row_2()
    ensures
        MDS@[24] == 8765181257382270816,
        MDS@[25] == 2214393267250057585,
        MDS@[26] == 10440968658565732009,
        MDS@[27] == 9245417370235283261,
        MDS@[28] == 10903600118637896817,
        MDS@[29] == 4336409820707567775,
        MDS@[30] == 373156886479152405,
        MDS@[31] == 6889031455917031511,
        MDS@[32] == 3512102634804595716,
        MDS@[33] == 10883465930001183358,
        MDS@[34] == 111817104814006178,
        MDS@[35] == 13147393342693302215,
{
}

/// Row 3 of `MDS`.
proof fn lemma_mds_row_3()
    ensures
        MDS@[36] == 16731403170144839149,
        MDS@[37] == 4199639565163130888,
        MDS@[38] == 11662145218068586336,
        MDS@[39] == 12136048551747257563,
        MDS@[40] == 16207916864411664082,
        MDS@[41] == 5795305278626201409,
        MDS@[42] == 3540476316084861152,
        MDS@[43] == 1979412480869555052,
        MDS@[44] == 15915841166779902642,
        MDS@[45] == 12798161080806683411,
        MDS@[46] == 13864641321606711741,
        MDS@[47] == 15619568278035706351,
{
}

/// Row 4 of `MDS`.
proof fn lemma_mds_row_4()
    ensures
        MDS@[48] == 6996727129159569475,
        MDS@[49] == 13016806715252432443,
        MDS@[50] == 10084910677946480774,
        MDS@[51] == 4854976610017568115,
        MDS@[52] == 3183560086131749081,
        MDS@[53] == 84343487446798268,
        MDS@[54] == 6976577640482780112,
        MDS@[55] == 1974323274754175061,
        MDS@[56] == 3184820667768309286,
        MDS@[57] == 2042442151413916954,
        MDS@[58] == 12542679131679444027,
        MDS@[59] == 8555877572558139340,
{
}

/// Row 5 of `MDS`.
proof fn lemma_mds_row_5()
    ensures
        MDS@[60] == 1958751724798615870,
        MDS@[61] == 6883794720630798095,
        MDS@[62] == 7822377053889412653,
        MDS@[63] == 5881955449915523948,
        MDS@[64] == 1826773441475877560,
        MDS@[65] == 14596945442992680206,
        MDS@[66] == 15525428857452141988,
        MDS@[67] == 2300675574592518485,
        MDS@[68] == 14076693432158095299,
        MDS@[69] == 3913142224341430328,
        MDS@[70] == 15645746834898234524,
        MDS@[71] == 10122456385203566801,
{
}

/// Row 6 of `MDS`.
proof fn lemma_mds_row_6()
    ensures
        MDS@[72] == 17729236334518869820,
        MDS@[73] == 1749133568562304236,
        MDS@[74] == 11557582145195575097,
        MDS@[75] == 12354965089547101180,
        MDS@[76] == 2660703340589826608,
        MDS@[77] == 440334420312600854,
        MDS@[78] == 2198333919637551622,
        MDS@[79] == 18369576650529043046,
        MDS@[80] == 7627007928139490203,
        MDS@[81] == 777383514316169044,
        MDS@[82] == 7198059378673430489,
        MDS@[83] == 9515098447333107659,
{
}

/// Row 7 of `MDS`.
proof fn lemma_mds_row_7()
    ensures
        MDS@[84] == 806473578789499443,
        MDS@[85] == 9336648523780571670,
        MDS@[86] == 5686967342712013436,
        MDS@[87] == 12904381239407564150,
        MDS@[88] == 4756705991254623925,
        MDS@[89] == 10206157924696479727,
        MDS@[90] == 4806103767866561340,
        MDS@[91] == 1872796239547928750,
        MDS@[92] == 17178476308939330252,
        MDS@[93] == 11771556405037973998,
        MDS@[94] == 9117917859381111393,
        MDS@[95] == 13067245698773587742,
{
}

/// Row 8 of `MDS`.
proof fn lemma_mds_row_8()
    ensures
        MDS@[96] == 10499199438819993852,
        MDS@[97] == 12171212168422477108,
        MDS@[98] == 5578998829898290932,
        MDS@[99] == 12178641820241082619,
        MDS@[100] == 4420340793047171628,
        MDS@[101] == 1530190253010972336,
        MDS@[102] == 15239962422294736463,
        MDS@[103] == 15238687364083809199,
        MDS@[104] == 12238023565508403339,
        MDS@[105] == 849083947368781781,
        MDS@[106] == 7020919173690859117,
        MDS@[107] == 6037995052907795325,
{
}

/// Row 9 of `MDS`.
proof fn lemma_mds_row_9()
    ensures
        MDS@[108] == 6617094955015694929,
        MDS@[109] == 17709895726490950223,
        MDS@[110] == 12395004788391953988,
        MDS@[111] == 4443167981067561554,
        MDS@[112] == 7500390692332462441,
        MDS@[113] == 12515433586262237946,
        MDS@[114] == 5152881173520844228,
        MDS@[115] == 2876311526543549543,
        MDS@[116] == 665794271176964969,
        MDS@[117] == 13140309957664961201,
        MDS@[118] == 9790029746103080496,
        MDS@[119] == 7580688024839866118,
{
}

/// Row 10 of `MDS`.
proof fn lemma_mds_row_10()
    ensures
        MDS@[120] == 10321065351363958810,
        MDS@[121] == 8558373207059165438,
        MDS@[122] == 15379391566111639810,
        MDS@[123] == 14892201863785415949,
        MDS@[124] == 9350656882348467407,
        MDS@[125] == 5434254718692813409,
        MDS@[126] == 12942082639379970277,
        MDS@[127] == 11437571946551726842,
        MDS@[128] == 7388656188826905221,
        MDS@[129] == 4131080631675148417,
        MDS@[130] == 721505112626253183,
        MDS@[131] == 17463850698301825653,
{
}

/// Row 11 of `MDS`.
proof fn lemma_mds_row_11()
    ensures
        MDS@[132] == 4496862336099562608,
        MDS@[133] == 14815253423827224307,
        MDS@[134] == 3941759144983839864,
        MDS@[135] == 496394397619911104,
        MDS@[136] == 14326824099506036322,
        MDS@[137] == 16750030373530649240,
        MDS@[138] == 567590961228605744,
        MDS@[139] == 3305769176941360911,
        MDS@[140] == 16162169544256723442,
        MDS@[141] == 15781486664476971789,
        MDS@[142] == 5656405359499826694,
        MDS@[143] == 14405311909503260201,
{
}

/// Row 0 of `INV_MDS`.
proof fn lemma_inv_mds_row_0()
    ensures
        INV_MDS@[0] == 18144555849476927374,
        INV_MDS@[1] == 13721382146536651531,
        INV_MDS@[2] == 3089875797346993241,
        INV_MDS@[3] == 16642169353490925937,
        INV_MDS@[4] == 12481468684811990106,
        INV_MDS@[5] == 4121843617940496225,
        INV_MDS@[6] == 4129790781140692748,
        INV_MDS@[7] == 688767946932393941,
        INV_MDS@[8] == 4111150982137800446,
        INV_MDS@[9] == 1089450373812047738,
        INV_MDS@[10] == 13934895865615659551,
        INV_MDS@[11] == 3348257440221276659,
{
}

/// Row 1 of `INV_MDS`.
proof fn lemma_inv_mds_row_1()
    ensures
        INV_MDS@[12] == 17836000848669323461,
        INV_MDS@[13] == 8642507343089032585,
        INV_MDS@[14] == 8222042489599816299,
        INV_MDS@[15] == 14286433228805461667,
        INV_MDS@[16] == 14150601651494101064,
        INV_MDS@[17] == 3502610110434428933,
        INV_MDS@[18] == 6621075793412742457,
        INV_MDS@[19] == 13912617123037567676,
        INV_MDS@[20] == 6398010452131362916,
        INV_MDS@[21] == 14182317465044732728,
        INV_MDS@[22] == 595200314641734087,
        INV_MDS@[23] == 3726536648170807106,
{
}

/// Row 2 of `INV_MDS`.
proof fn lemma_inv_mds_row_2()
    ensures
        INV_MDS@[24] == 778074229987396986,
        INV_MDS@[25] == 18125236013805002112,
        INV_MDS@[26] == 16795870930471535933,
        INV_MDS@[27] == 4444993276877870520,
        INV_MDS@[28] == 7742856852104202289,
        INV_MDS@[29] == 4607989154756352997,
        INV_MDS@[30] == 13952151892042504619,
        INV_MDS@[31] == 14813786624882131127,
        INV_MDS@[32] == 1011914663726019958,
        INV_MDS@[33] == 6259265713670753298,
        INV_MDS@[34] == 15987952731985786134,
        INV_MDS@[35] == 8099775052664498557,
{
}

/// Row 3 of `INV_MDS`.
proof fn lemma_inv_mds_row_3()
    ensures
        INV_MDS@[36] == 7398913649889091650,
        INV_MDS@[37] == 12440566968934204138,
        INV_MDS@[38] == 17649990195444781456,
        INV_MDS@[39] == 11538885883660364618,
        INV_MDS@[40] == 4407645622865595120,
        INV_MDS@[41] == 6633698812571631570,
        INV_MDS@[42] == 15650872682003063574,
        INV_MDS@[43] == 9519805421328796770,
        INV_MDS@[44] == 15112307222930510924,
        INV_MDS@[45] == 5842544410030482907,
        INV_MDS@[46] == 17158972732500521844,
        INV_MDS@[47] == 8459189118411299370,
{
}

/// Row 4 of `INV_MDS`.
proof fn lemma_inv_mds_row_4()
    ensures
        INV_MDS@[48] == 15998460101840940499,
        INV_MDS@[49] == 13289066588927556646,
        INV_MDS@[50] == 3933740661569359061,
        INV_MDS@[51] == 8545689675015500335,
        INV_MDS@[52] == 10937438662640227039,
        INV_MDS@[53] == 9542846015371531580,
        INV_MDS@[54] == 8719735068114913444,
        INV_MDS@[55] == 7998938619901238697,
        INV_MDS@[56] == 8429477668004913435,
        INV_MDS@[57] == 12463336703870748155,
        INV_MDS@[58] == 12698637456361551034,
        INV_MDS@[59] == 15219260363080271871,
{
}

/// Row 5 of `INV_MDS`.
proof fn lemma_inv_mds_row_5()
    ensures
        INV_MDS@[60] == 16868883943436188794,
        INV_MDS@[61] == 9657158665570915168,
        INV_MDS@[62] == 18237013319928696607,
        INV_MDS@[63] == 17503060276710891958,
        INV_MDS@[64] == 14055586713560957601,
        INV_MDS@[65] == 2362219746134802271,
        INV_MDS@[66] == 15127897720041080031,
        INV_MDS@[67] == 9230115648985830785,
        INV_MDS@[68] == 17475888821200468490,
        INV_MDS@[69] == 4505598155300055020,
        INV_MDS@[70] == 18226760539284171314,
        INV_MDS@[71] == 15727384124014280557,
{
}

/// Row 6 of `INV_MDS`.
proof fn lemma_inv_mds_row_6()
    ensures
        INV_MDS@[72] == 17298291488582136802,
        INV_MDS@[73] == 14907809634035681815,
        INV_MDS@[74] == 16325978558052274623,
        INV_MDS@[75] == 9352264028973735831,
        INV_MDS@[76] == 917763106859827872,
        INV_MDS@[77] == 6675329891611190692,
        INV_MDS@[78] == 3583368781202404030,
        INV_MDS@[79] == 1391846768326109030,
        INV_MDS@[80] == 11727102779244870265,
        INV_MDS@[81] == 5531319597647347119,
        INV_MDS@[82] == 18392301100737590582,
        INV_MDS@[83] == 9476204050182409105,
{
}

/// Row 7 of `INV_MDS`.
proof fn lemma_inv_mds_row_7()
    ensures
        INV_MDS@[84] == 3285182661460766588,
        INV_MDS@[85] == 14713354330616573571,
        INV_MDS@[86] == 7973333729386869825,
        INV_MDS@[87] == 5171684086232147087,
        INV_MDS@[88] == 12574741318087549907,
        INV_MDS@[89] == 1104306757921324325,
        INV_MDS@[90] == 11257236092622508264,
        INV_MDS@[91] == 11209933342597752755,
        INV_MDS@[92] == 14299420251835617036,
        INV_MDS@[93] == 13527757428174476772,
        INV_MDS@[94] == 8716799942601721461,
        INV_MDS@[95] == 5209232145553849842,
{
}

/// Row 8 of `INV_MDS`.
proof fn lemma_inv_mds_row_8()
    ensures
        INV_MDS@[96] == 5100122196584094970,
        INV_MDS@[97] == 14798850424290526893,
        INV_MDS@[98] == 4871524293593127428,
        INV_MDS@[99] == 3964693644228700308,
        INV_MDS@[100] == 13757202860316855114,
        INV_MDS@[101] == 1733380378805905884,
        INV_MDS@[102] == 12934883999734076137,
        INV_MDS@[103] == 16301178884859759514,
        INV_MDS@[104] == 4986874405387808053,
        INV_MDS@[105] == 3769509608404549933,
        INV_MDS@[106] == 18176594401495523310,
        INV_MDS@[107] == 18024931640497672795,
{
}

/// Row 9 of `INV_MDS`.
proof fn lemma_inv_mds_row_9()
    ensures
        INV_MDS@[108] == 15089590925251258017,
        INV_MDS@[109] == 11577838215299384569,
        INV_MDS@[110] == 13260977676197803928,
        INV_MDS@[111] == 13894223429254193102,
        INV_MDS@[112] == 490185726763680722,
        INV_MDS@[113] == 8396702879775603420,
        INV_MDS@[114] == 16316839076391380700,
        INV_MDS@[115] == 15333245786856306259,
        INV_MDS@[116] == 1990648171079364364,
        INV_MDS@[117] == 5546594834266019573,
        INV_MDS@[118] == 12914492430734648756,
        INV_MDS@[119] == 9159818471374640061,
{
}

/// Row 10 of `INV_MDS`.
proof fn lemma_inv_mds_row_10()
    ensures
        INV_MDS@[120] == 14873706267930036825,
        INV_MDS@[121] == 4482502765708235940,
        INV_MDS@[122] == 1293121958623108848,
        INV_MDS@[123] == 2912815298969125898,
        INV_MDS@[124] == 16608741891263026413,
        INV_MDS@[125] == 5505366372645852459,
        INV_MDS@[126] == 2959054593591611614,
        INV_MDS@[127] == 10214419207372171828,
        INV_MDS@[128] == 8279669146557145773,
        INV_MDS@[129] == 14389027943756575605,
        INV_MDS@[130] == 287785456174655450,
        INV_MDS@[131] == 9392565555941172313,
{
}

/// Row 11 of `INV_MDS`.
proof fn lemma_inv_mds_row_11()
    ensures
        INV_MDS@[132] == 4759713326423655569,
        INV_MDS@[133] == 3126680109051985680,
        INV_MDS@[134] == 12818455398525559133,
        INV_MDS@[135] == 2369691254364065970,
        INV_MDS@[136] == 4830855309800709645,
        INV_MDS@[137] == 7905662622950188751,
        INV_MDS@[138] == 12645002336872020497,
        INV_MDS@[139] == 16986477359485720724,
        INV_MDS@[140] == 14182644859010550052,
        INV_MDS@[141] == 11863112114704177882,
        INV_MDS@[142] == 17607018699185664534,
        INV_MDS@[143] == 7041439209722523945,
{
}

/// Element 0 of the mixed state is its row product less a multiple of the modulus.
proof fn lemma_mixed_entry_0(s: Seq<u64>) -> (q: int)
    requires
        s.len() >= 12,
    ensures
        mixed(MDS@, s)[0] == 14570791697008582876 * s[0] + 14287730469917200292 * s[1] + 15111342538701370819 * s[2]
            + 1111401104756727833 * s[3] + 18343752991270580578 * s[4] + 10395724785100660355 * s[5]
            + 14391941175009286906 * s[6] + 5491581447267359356 * s[7] + 1031244057765854727 * s[8]
            + 2741392851187030668 * s[9] + 8356433820458919454 * s[10]
            + 10361960094523491469 * s[11] - q * F64::modulus(),
{
    let m = F64::modulus();
    lemma_mds_row_0();
    lemma_row_dot_of_known_row(MDS@, 0, s, 14570791697008582876, 14287730469917200292, 15111342538701370819, 1111401104756727833, 18343752991270580578, 10395724785100660355, 14391941175009286906, 5491581447267359356, 1031244057765854727, 2741392851187030668, 8356433820458919454, 10361960094523491469);
    lemma_fundamental_div_mod(row_dot(MDS@, 0, s, 12), m);
    lemma_mod_bound(row_dot(MDS@, 0, s, 12), m);
    row_dot(MDS@, 0, s, 12) / m
}

/// Element 1 of the mixed state is its row product less a multiple of the modulus.
proof fn lemma_mixed_entry_1(s: Seq<u64>) -> (q: int)
    requires
        s.len() >= 12,
    ensures
        mixed(MDS@, s)[1] == 17296841519685941390 * s[0] + 1598937820631795543 * s[1] + 18252132164632030075 * s[2]
            + 241444688886262292 * s[3] + 17599434116007097224 * s[4] + 9231563221418652240 * s[5]
            + 15805688995498349990 * s[6] + 17256539972135898838 * s[7] + 2330753493485837824 * s[8]
            + 6251316318077619492 * s[9] + 7679024702804679152 * s[10] + 2943046310091653711 * s[11] - q * F64::modulus(),
{
    let m = F64::modulus();
    lemma_mds_row_1();
    lemma_row_dot_of_known_row(MDS@, 1, s, 17296841519685941390, 1598937820631795543, 18252132164632030075, 241444688886262292, 17599434116007097224, 9231563221418652240, 15805688995498349990, 17256539972135898838, 2330753493485837824, 6251316318077619492, 7679024702804679152, 2943046310091653711);
    lemma_fundamental_div_mod(row_dot(MDS@, 1, s, 12), m);
    lemma_mod_bound(row_dot(MDS@, 1, s, 12), m);
    row_dot(MDS@, 1, s, 12) / m
}

/// Element 2 of the mixed state is its row product less a multiple of the modulus.
proof fn lemma_mixed_entry_2(s: Seq<u64>) -> (q: int)
    requires
        s.len() >= 12,
    ensures
        mixed(MDS@, s)[2] == 8765181257382270816 * s[0] + 2214393267250057585 * s[1] + 10440968658565732009 * s[2]
            + 9245417370235283261 * s[3] + 10903600118637896817 * s[4] + 4336409820707567775 * s[5]
            + 373156886479152405 * s[6] + 6889031455917031511 * s[7] + 3512102634804595716 * s[8]
            + 10883465930001183358 * s[9] + 111817104814006178 * s[10]
            + 13147393342693302215 * s[11] - q * F64::modulus(),
{
    let m = F64::modulus();
    lemma_mds_row_2();
    lemma_row_dot_of_known_row(MDS@, 2, s, 8765181257382270816, 2214393267250057585, 10440968658565732009, 9245417370235283261, 10903600118637896817, 4336409820707567775, 373156886479152405, 6889031455917031511, 3512102634804595716, 10883465930001183358, 111817104814006178, 13147393342693302215);
    lemma_fundamental_div_mod(row_dot(MDS@, 2, s, 12), m);
    lemma_mod_bound(row_dot(MDS@, 2, s, 12), m);
    row_dot(MDS@, 2, s, 12) / m
}

/// Element 3 of the mixed state is its row product less a multiple of the modulus.
proof fn lemma_mixed_entry_3(s: Seq<u64>) -> (q: int)
    requires
        s.len() >= 12,
    ensures
        mixed(MDS@, s)[3] == 16731403170144839149 * s[0] + 4199639565163130888 * s[1] + 11662145218068586336 * s[2]
            + 12136048551747257563 * s[3] + 16207916864411664082 * s[4] + 5795305278626201409 * s[5]
            + 3540476316084861152 * s[6] + 1979412480869555052 * s[7] + 15915841166779902642 * s[8]
            + 12798161080806683411 * s[9] + 13864641321606711741 * s[10]
            + 15619568278035706351 * s[11] - q * F64::modulus(),
{
    let m = F64::modulus();
    lemma_mds_row_3();
    lemma_row_dot_of_known_row(MDS@, 3, s, 16731403170144839149, 4199639565163130888, 11662145218068586336, 12136048551747257563, 16207916864411664082, 5795305278626201409, 3540476316084861152, 1979412480869555052, 15915841166779902642, 12798161080806683411, 13864641321606711741, 15619568278035706351);
    lemma_fundamental_div_mod(row_dot(MDS@, 3, s, 12), m);
    lemma_mod_bound(row_dot(MDS@, 3, s, 12), m);
    row_dot(MDS@, 3, s, 12) / m
}

/// Element 4 of the mixed state is its row product less a multiple of the modulus.
proof fn lemma_mixed_entry_4(s: Seq<u64>) -> (q: int)
    requires
        s.len() >= 12,
    ensures
        mixed(MDS@, s)[4] == 6996727129159569475 * s[0] + 13016806715252432443 * s[1] + 10084910677946480774 * s[2]
            + 4854976610017568115 * s[3] + 3183560086131749081 * s[4] + 84343487446798268 * s[5]
            + 6976577640482780112 * s[6] + 1974323274754175061 * s[7] + 3184820667768309286 * s[8]
            + 2042442151413916954 * s[9] + 12542679131679444027 * s[10]
            + 8555877572558139340 * s[11] - q * F64::modulus(),
{
    let m = F64::modulus();
    lemma_mds_row_4();
    lemma_row_dot_of_known_row(MDS@, 4, s, 6996727129159569475, 13016806715252432443, 10084910677946480774, 4854976610017568115, 3183560086131749081, 84343487446798268, 6976577640482780112, 1974323274754175061, 3184820667768309286, 2042442151413916954, 12542679131679444027, 8555877572558139340);
    lemma_fundamental_div_mod(row_dot(MDS@, 4, s, 12), m);
    lemma_mod_bound(row_dot(MDS@, 4, s, 12), m);
    row_dot(MDS@, 4, s, 12) / m
}

/// Element 5 of the mixed state is its row product less a multiple of the modulus.
proof fn lemma_mixed_entry_5(s: Seq<u64>) -> (q: int)
    requires
        s.len() >= 12,
    ensures
        mixed(MDS@, s)[5] == 1958751724798615870 * s[0] + 6883794720630798095 * s[1] + 7822377053889412653 * s[2]
            + 5881955449915523948 * s[3] + 1826773441475877560 * s[4] + 14596945442992680206 * s[5]
            + 15525428857452141988 * s[6] + 2300675574592518485 * s[7] + 14076693432158095299 * s[8]
            + 3913142224341430328 * s[9] + 15645746834898234524 * s[10]
            + 10122456385203566801 * s[11] - q * F64::modulus(),
{
    let m = F64::modulus();
    lemma_mds_row_5();
    lemma_row_dot_of_known_row(MDS@, 5, s, 1958751724798615870, 6883794720630798095, 7822377053889412653, 5881955449915523948, 1826773441475877560, 14596945442992680206, 15525428857452141988, 2300675574592518485, 14076693432158095299, 3913142224341430328, 15645746834898234524, 10122456385203566801);
    lemma_fundamental_div_mod(row_dot(MDS@, 5, s, 12), m);
    lemma_mod_bound(row_dot(MDS@, 5, s, 12), m);
    row_dot(MDS@, 5, s, 12) / m
}

/// Element 6 of the mixed state is its row product less a multiple of the modulus.
proof fn lemma_mixed_entry_6(s: Seq<u64>) -> (q: int)
    requires
        s.len() >= 12,
    ensures
        mixed(MDS@, s)[6] == 17729236334518869820 * s[0] + 1749133568562304236 * s[1] + 11557582145195575097 * s[2]
            + 12354965089547101180 * s[3] + 2660703340589826608 * s[4] + 440334420312600854 * s[5]
            + 2198333919637551622 * s[6] + 18369576650529043046 * s[7] + 7627007928139490203 * s[8]
            + 777383514316169044 * s[9] + 7198059378673430489 * s[10] + 9515098447333107659 * s[11] - q * F64::modulus(),
{
    let m = F64::modulus();
    lemma_mds_row_6();
    lemma_row_dot_of_known_row(MDS@, 6, s, 17729236334518869820, 1749133568562304236, 11557582145195575097, 12354965089547101180, 2660703340589826608, 440334420312600854, 2198333919637551622, 18369576650529043046, 7627007928139490203, 777383514316169044, 7198059378673430489, 9515098447333107659);
    lemma_fundamental_div_mod(row_dot(MDS@, 6, s, 12), m);
    lemma_mod_bound(row_dot(MDS@, 6, s, 12), m);
    row_dot(MDS@, 6, s, 12) / m
}

/// Element 7 of the mixed state is its row product less a multiple of the modulus.
proof fn lemma_mixed_entry_7(s: Seq<u64>) -> (q: int)
    requires
        s.len() >= 12,
    ensures
        mixed(MDS@, s)[7] == 806473578789499443 * s[0] + 9336648523780571670 * s[1] + 5686967342712013436 * s[2]
            + 12904381239407564150 * s[3] + 4756705991254623925 * s[4] + 10206157924696479727 * s[5]
            + 4806103767866561340 * s[6] + 1872796239547928750 * s[7] + 17178476308939330252 * s[8]
            + 11771556405037973998 * s[9] + 9117917859381111393 * s[10]
            + 13067245698773587742 * s[11] - q * F64::modulus(),
{
    let m = F64::modulus();
    lemma_mds_row_7();
    lemma_row_dot_of_known_row(MDS@, 7, s, 806473578789499443, 9336648523780571670, 5686967342712013436, 12904381239407564150, 4756705991254623925, 10206157924696479727, 4806103767866561340, 1872796239547928750, 17178476308939330252, 11771556405037973998, 9117917859381111393, 13067245698773587742);
    lemma_fundamental_div_mod(row_dot(MDS@, 7, s, 12), m);
    lemma_mod_bound(row_dot(MDS@, 7, s, 12), m);
    row_dot(MDS@, 7, s, 12) / m
}

/// Element 8 of the mixed state is its row product less a multiple of the modulus.
proof fn lemma_mixed_entry_8(s: Seq<u64>) -> (q: int)
    requires
        s.len() >= 12,
    ensures
        mixed(MDS@, s)[8] == 10499199438819993852 * s[0] + 12171212168422477108 * s[1] + 5578998829898290932 * s[2]
            + 12178641820241082619 * s[3] + 4420340793047171628 * s[4] + 1530190253010972336 * s[5]
            + 15239962422294736463 * s[6] + 15238687364083809199 * s[7]
            + 12238023565508403339 * s[8] + 849083947368781781 * s[9] + 7020919173690859117 * s[10]
            + 6037995052907795325 * s[11] - q * F64::modulus(),
{
    let m = F64::modulus();
    lemma_mds_row_8();
    lemma_row_dot_of_known_row(MDS@, 8, s, 10499199438819993852, 12171212168422477108, 5578998829898290932, 12178641820241082619, 4420340793047171628, 1530190253010972336, 15239962422294736463, 15238687364083809199, 12238023565508403339, 849083947368781781, 7020919173690859117, 6037995052907795325);
    lemma_fundamental_div_mod(row_dot(MDS@, 8, s, 12), m);
    lemma_mod_bound(row_dot(MDS@, 8, s, 12), m);
    row_dot(MDS@, 8, s, 12) / m
}

/// Element 9 of the mixed state is its row product less a multiple of the modulus.
proof fn lemma_mixed_entry_9(s: Seq<u64>) -> (q: int)
    requires
        s.len() >= 12,
    ensures
        mixed(MDS@, s)[9] == 6617094955015694929 * s[0] + 17709895726490950223 * s[1] + 12395004788391953988 * s[2]
            + 4443167981067561554 * s[3] + 7500390692332462441 * s[4] + 12515433586262237946 * s[5]
            + 5152881173520844228 * s[6] + 2876311526543549543 * s[7] + 665794271176964969 * s[8]
            + 13140309957664961201 * s[9] + 9790029746103080496 * s[10]
            + 7580688024839866118 * s[11] - q * F64::modulus(),
{
    let m = F64::modulus();
    lemma_mds_row_9();
    lemma_row_dot_of_known_row(MDS@, 9, s, 6617094955015694929, 17709895726490950223, 12395004788391953988, 4443167981067561554, 7500390692332462441, 12515433586262237946, 5152881173520844228, 2876311526543549543, 665794271176964969, 13140309957664961201, 9790029746103080496, 7580688024839866118);
    lemma_fundamental_div_mod(row_dot(MDS@, 9, s, 12), m);
    lemma_mod_bound(row_dot(MDS@, 9, s, 12), m);
    row_dot(MDS@, 9, s, 12) / m
}

/// Element 10 of the mixed state is its row product less a multiple of the modulus.
proof fn lemma_mixed_entry_10(s: Seq<u64>) -> (q: int)
    requires
        s.len() >= 12,
    ensures
        mixed(MDS@, s)[10] == 10321065351363958810 * s[0] + 8558373207059165438 * s[1] + 15379391566111639810 * s[2]
            + 14892201863785415949 * s[3] + 9350656882348467407 * s[4] + 5434254718692813409 * s[5]
            + 12942082639379970277 * s[6] + 11437571946551726842 * s[7] + 7388656188826905221 * s[8]
            + 4131080631675148417 * s[9] + 721505112626253183 * s[10] + 17463850698301825653 * s[11] - q * F64::modulus(),
{
    let m = F64::modulus();
    lemma_mds_row_10();
    lemma_row_dot_of_known_row(MDS@, 10, s, 10321065351363958810, 8558373207059165438, 15379391566111639810, 14892201863785415949, 9350656882348467407, 5434254718692813409, 12942082639379970277, 11437571946551726842, 7388656188826905221, 4131080631675148417, 721505112626253183, 17463850698301825653);
    lemma_fundamental_div_mod(row_dot(MDS@, 10, s, 12), m);
    lemma_mod_bound(row_dot(MDS@, 10, s, 12), m);
    row_dot(MDS@, 10, s, 12) / m
}

/// Element 11 of the mixed state is its row product less a multiple of the modulus.
proof fn lemma_mixed_entry_11(s: Seq<u64>) -> (q: int)
    requires
        s.len() >= 12,
    ensures
        mixed(MDS@, s)[11] == 4496862336099562608 * s[0] + 14815253423827224307 * s[1] + 3941759144983839864 * s[2]
            + 496394397619911104 * s[3] + 14326824099506036322 * s[4] + 16750030373530649240 * s[5]
            + 567590961228605744 * s[6] + 3305769176941360911 * s[7] + 16162169544256723442 * s[8]
            + 15781486664476971789 * s[9] + 5656405359499826694 * s[10]
            + 14405311909503260201 * s[11] - q * F64::modulus(),
{
    let m = F64::modulus();
    lemma_mds_row_11();
    lemma_row_dot_of_known_row(MDS@, 11, s, 4496862336099562608, 14815253423827224307, 3941759144983839864, 496394397619911104, 14326824099506036322, 16750030373530649240, 567590961228605744, 3305769176941360911, 16162169544256723442, 15781486664476971789, 5656405359499826694, 14405311909503260201);
    lemma_fundamental_div_mod(row_dot(MDS@, 11, s, 12), m);
    lemma_mod_bound(row_dot(MDS@, 11, s, 12), m);
    row_dot(MDS@, 11, s, 12) / m
}

/// Row 0 of the product of the two matrices is row 0 of the identity, up to
/// multiples of the modulus.
proof fn lemma_product_row_0(s0: int, s1: int, s2: int, s3: int, s4: int, s5: int, s6: int, s7: int, s8: int, s9: int, s10: int, s11: int, q0: int, q1: int, q2: int, q3: int, q4: int, q5: int, q6: int, q7: int, q8: int, q9: int, q10: int, q11: int) -> (t: int)
    ensures
        ({
            let m = F64::modulus();
            18144555849476927374 * (14570791697008582876 * s0 + 14287730469917200292 * s1 + 15111342538701370819 * s2 + 1111401104756727833 * s3 + 18343752991270580578 * s4 + 10395724785100660355 * s5 + 14391941175009286906 * s6 + 5491581447267359356 * s7 + 1031244057765854727 * s8 + 2741392851187030668 * s9 + 8356433820458919454 * s10 + 10361960094523491469 * s11 - q0 * m)
                + 13721382146536651531 * (17296841519685941390 * s0 + 1598937820631795543 * s1 + 18252132164632030075 * s2 + 241444688886262292 * s3 + 17599434116007097224 * s4 + 9231563221418652240 * s5 + 15805688995498349990 * s6 + 17256539972135898838 * s7 + 2330753493485837824 * s8 + 6251316318077619492 * s9 + 7679024702804679152 * s10 + 2943046310091653711 * s11 - q1 * m)
                + 3089875797346993241 * (8765181257382270816 * s0 + 2214393267250057585 * s1 + 10440968658565732009 * s2 + 9245417370235283261 * s3 + 10903600118637896817 * s4 + 4336409820707567775 * s5 + 373156886479152405 * s6 + 6889031455917031511 * s7 + 3512102634804595716 * s8 + 10883465930001183358 * s9 + 111817104814006178 * s10 + 13147393342693302215 * s11 - q2 * m)
                + 16642169353490925937 * (16731403170144839149 * s0 + 4199639565163130888 * s1 + 11662145218068586336 * s2 + 12136048551747257563 * s3 + 16207916864411664082 * s4 + 5795305278626201409 * s5 + 3540476316084861152 * s6 + 1979412480869555052 * s7 + 15915841166779902642 * s8 + 12798161080806683411 * s9 + 13864641321606711741 * s10 + 15619568278035706351 * s11 - q3 * m)
                + 12481468684811990106 * (6996727129159569475 * s0 + 13016806715252432443 * s1 + 10084910677946480774 * s2 + 4854976610017568115 * s3 + 3183560086131749081 * s4 + 84343487446798268 * s5 + 6976577640482780112 * s6 + 1974323274754175061 * s7 + 3184820667768309286 * s8 + 2042442151413916954 * s9 + 12542679131679444027 * s10 + 8555877572558139340 * s11 - q4 * m)
                + 4121843617940496225 * (1958751724798615870 * s0 + 6883794720630798095 * s1 + 7822377053889412653 * s2 + 5881955449915523948 * s3 + 1826773441475877560 * s4 + 14596945442992680206 * s5 + 15525428857452141988 * s6 + 2300675574592518485 * s7 + 14076693432158095299 * s8 + 3913142224341430328 * s9 + 15645746834898234524 * s10 + 10122456385203566801 * s11 - q5 * m)
                + 4129790781140692748 * (17729236334518869820 * s0 + 1749133568562304236 * s1 + 11557582145195575097 * s2 + 12354965089547101180 * s3 + 2660703340589826608 * s4 + 440334420312600854 * s5 + 2198333919637551622 * s6 + 18369576650529043046 * s7 + 7627007928139490203 * s8 + 777383514316169044 * s9 + 7198059378673430489 * s10 + 9515098447333107659 * s11 - q6 * m)
                + 688767946932393941 * (806473578789499443 * s0 + 9336648523780571670 * s1 + 5686967342712013436 * s2 + 12904381239407564150 * s3 + 4756705991254623925 * s4 + 10206157924696479727 * s5 + 4806103767866561340 * s6 + 1872796239547928750 * s7 + 17178476308939330252 * s8 + 11771556405037973998 * s9 + 9117917859381111393 * s10 + 13067245698773587742 * s11 - q7 * m)
                + 4111150982137800446 * (10499199438819993852 * s0 + 12171212168422477108 * s1 + 5578998829898290932 * s2 + 12178641820241082619 * s3 + 4420340793047171628 * s4 + 1530190253010972336 * s5 + 15239962422294736463 * s6 + 15238687364083809199 * s7 + 12238023565508403339 * s8 + 849083947368781781 * s9 + 7020919173690859117 * s10 + 6037995052907795325 * s11 - q8 * m)
                + 1089450373812047738 * (6617094955015694929 * s0 + 17709895726490950223 * s1 + 12395004788391953988 * s2 + 4443167981067561554 * s3 + 7500390692332462441 * s4 + 12515433586262237946 * s5 + 5152881173520844228 * s6 + 2876311526543549543 * s7 + 665794271176964969 * s8 + 13140309957664961201 * s9 + 9790029746103080496 * s10 + 7580688024839866118 * s11 - q9 * m)
                + 13934895865615659551 * (10321065351363958810 * s0 + 8558373207059165438 * s1 + 15379391566111639810 * s2 + 14892201863785415949 * s3 + 9350656882348467407 * s4 + 5434254718692813409 * s5 + 12942082639379970277 * s6 + 11437571946551726842 * s7 + 7388656188826905221 * s8 + 4131080631675148417 * s9 + 721505112626253183 * s10 + 17463850698301825653 * s11 - q10 * m)
                + 3348257440221276659 * (4496862336099562608 * s0 + 14815253423827224307 * s1 + 3941759144983839864 * s2 + 496394397619911104 * s3 + 14326824099506036322 * s4 + 16750030373530649240 * s5 + 567590961228605744 * s6 + 3305769176941360911 * s7 + 16162169544256723442 * s8 + 15781486664476971789 * s9 + 5656405359499826694 * s10 + 14405311909503260201 * s11 - q11 * m) == s0 + m * t
        }),
{
    64275642001076972673 * s0 + 43401246014589800698 * s1 + 66390598868727863355 * s2
        + 35933803498154986211 * s3 + 62010802471674648019 * s4 + 35070863153680944934 * s5
        + 51611297049429889928 * s6 + 40015942796322736325 * s7 + 36626235226711441372 * s8
        + 30535969278581417565 * s9 + 44107720332329795207 * s10 + 56944653159377333412 * s11
        - 18144555849476927374 * q0 - 13721382146536651531 * q1 - 3089875797346993241 * q2
        - 16642169353490925937 * q3 - 12481468684811990106 * q4 - 4121843617940496225 * q5
        - 4129790781140692748 * q6 - 688767946932393941 * q7 - 4111150982137800446 * q8
        - 1089450373812047738 * q9 - 13934895865615659551 * q10 - 3348257440221276659 * q11
}

/// Element 0 of a state comes back when the mixing is undone.
proof fn lemma_round_trip_row_0(s: Seq<u64>)
    requires
        is_canonical_state(s),
    ensures
        mixed(INV_MDS@, mixed(MDS@, s))[0] == s[0],
{
    let m = F64::modulus();
    let y = mixed(MDS@, s);
    let q0 = lemma_mixed_entry_0(s);
    let q1 = lemma_mixed_entry_1(s);
    let q2 = lemma_mixed_entry_2(s);
    let q3 = lemma_mixed_entry_3(s);
    let q4 = lemma_mixed_entry_4(s);
    let q5 = lemma_mixed_entry_5(s);
    let q6 = lemma_mixed_entry_6(s);
    let q7 = lemma_mixed_entry_7(s);
    let q8 = lemma_mixed_entry_8(s);
    let q9 = lemma_mixed_entry_9(s);
    let q10 = lemma_mixed_entry_10(s);
    let q11 = lemma_mixed_entry_11(s);
    let t = lemma_product_row_0(s[0] as int, s[1] as int, s[2] as int, s[3] as int, s[4] as int, s[5] as int, s[6] as int, s[7] as int, s[8] as int, s[9] as int, s[10] as int, s[11] as int, q0, q1, q2, q3, q4, q5, q6, q7, q8, q9, q10, q11);
    lemma_inv_mds_row_0();
    lemma_row_dot_of_known_row(INV_MDS@, 0, y, 18144555849476927374, 13721382146536651531, 3089875797346993241, 16642169353490925937, 12481468684811990106, 4121843617940496225, 4129790781140692748, 688767946932393941, 4111150982137800446, 1089450373812047738, 13934895865615659551, 3348257440221276659);
    assert(row_dot(INV_MDS@, 0, y, 12) == s[0] + m * t);
    lemma_mod_multiples_vanish(t, s[0] as int, m);
    lemma_small_mod(s[0] as nat, m as nat);
}

/// Row 1 of the product of the two matrices is row 1 of the identity, up to
/// multiples of the modulus.
proof fn lemma_product_row_1(s0: int, s1: int, s2: int, s3: int, s4: int, s5: int, s6: int, s7: int, s8: int, s9: int, s10: int, s11: int, q0: int, q1: int, q2: int, q3: int, q4: int, q5: int, q6: int, q7: int, q8: int, q9: int, q10: int, q11: int) -> (t: int)
    ensures
        ({
            let m = F64::modulus();
            17836000848669323461 * (14570791697008582876 * s0 + 14287730469917200292 * s1 + 15111342538701370819 * s2 + 1111401104756727833 * s3 + 18343752991270580578 * s4 + 10395724785100660355 * s5 + 14391941175009286906 * s6 + 5491581447267359356 * s7 + 1031244057765854727 * s8 + 2741392851187030668 * s9 + 8356433820458919454 * s10 + 10361960094523491469 * s11 - q0 * m)
                + 8642507343089032585 * (17296841519685941390 * s0 + 1598937820631795543 * s1 + 18252132164632030075 * s2 + 241444688886262292 * s3 + 17599434116007097224 * s4 + 9231563221418652240 * s5 + 15805688995498349990 * s6 + 17256539972135898838 * s7 + 2330753493485837824 * s8 + 6251316318077619492 * s9 + 7679024702804679152 * s10 + 2943046310091653711 * s11 - q1 * m)
                + 8222042489599816299 * (8765181257382270816 * s0 + 2214393267250057585 * s1 + 10440968658565732009 * s2 + 9245417370235283261 * s3 + 10903600118637896817 * s4 + 4336409820707567775 * s5 + 373156886479152405 * s6 + 6889031455917031511 * s7 + 3512102634804595716 * s8 + 10883465930001183358 * s9 + 111817104814006178 * s10 + 13147393342693302215 * s11 - q2 * m)
                + 14286433228805461667 * (16731403170144839149 * s0 + 4199639565163130888 * s1 + 11662145218068586336 * s2 + 12136048551747257563 * s3 + 16207916864411664082 * s4 + 5795305278626201409 * s5 + 3540476316084861152 * s6 + 1979412480869555052 * s7 + 15915841166779902642 * s8 + 12798161080806683411 * s9 + 13864641321606711741 * s10 + 15619568278035706351 * s11 - q3 * m)
                + 14150601651494101064 * (6996727129159569475 * s0 + 13016806715252432443 * s1 + 10084910677946480774 * s2 + 4854976610017568115 * s3 + 3183560086131749081 * s4 + 84343487446798268 * s5 + 6976577640482780112 * s6 + 1974323274754175061 * s7 + 3184820667768309286 * s8 + 2042442151413916954 * s9 + 12542679131679444027 * s10 + 8555877572558139340 * s11 - q4 * m)
                + 3502610110434428933 * (1958751724798615870 * s0 + 6883794720630798095 * s1 + 7822377053889412653 * s2 + 5881955449915523948 * s3 + 1826773441475877560 * s4 + 14596945442992680206 * s5 + 15525428857452141988 * s6 + 2300675574592518485 * s7 + 14076693432158095299 * s8 + 3913142224341430328 * s9 + 15645746834898234524 * s10 + 10122456385203566801 * s11 - q5 * m)
                + 6621075793412742457 * (17729236334518869820 * s0 + 1749133568562304236 * s1 + 11557582145195575097 * s2 + 12354965089547101180 * s3 + 2660703340589826608 * s4 + 440334420312600854 * s5 + 2198333919637551622 * s6 + 18369576650529043046 * s7 + 7627007928139490203 * s8 + 777383514316169044 * s9 + 7198059378673430489 * s10 + 9515098447333107659 * s11 - q6 * m)
                + 13912617123037567676 * (806473578789499443 * s0 + 9336648523780571670 * s1 + 5686967342712013436 * s2 + 12904381239407564150 * s3 + 4756705991254623925 * s4 + 10206157924696479727 * s5 + 4806103767866561340 * s6 + 1872796239547928750 * s7 + 17178476308939330252 * s8 + 11771556405037973998 * s9 + 9117917859381111393 * s10 + 13067245698773587742 * s11 - q7 * m)
                + 6398010452131362916 * (10499199438819993852 * s0 + 12171212168422477108 * s1 + 5578998829898290932 * s2 + 12178641820241082619 * s3 + 4420340793047171628 * s4 + 1530190253010972336 * s5 + 15239962422294736463 * s6 + 15238687364083809199 * s7 + 12238023565508403339 * s8 + 849083947368781781 * s9 + 7020919173690859117 * s10 + 6037995052907795325 * s11 - q8 * m)
                + 14182317465044732728 * (6617094955015694929 * s0 + 17709895726490950223 * s1 + 12395004788391953988 * s2 + 4443167981067561554 * s3 + 7500390692332462441 * s4 + 12515433586262237946 * s5 + 5152881173520844228 * s6 + 2876311526543549543 * s7 + 665794271176964969 * s8 + 13140309957664961201 * s9 + 9790029746103080496 * s10 + 7580688024839866118 * s11 - q9 * m)
                + 595200314641734087 * (10321065351363958810 * s0 + 8558373207059165438 * s1 + 15379391566111639810 * s2 + 14892201863785415949 * s3 + 9350656882348467407 * s4 + 5434254718692813409 * s5 + 12942082639379970277 * s6 + 11437571946551726842 * s7 + 7388656188826905221 * s8 + 4131080631675148417 * s9 + 721505112626253183 * s10 + 17463850698301825653 * s11 - q10 * m)
                + 3726536648170807106 * (4496862336099562608 * s0 + 14815253423827224307 * s1 + 3941759144983839864 * s2 + 496394397619911104 * s3 + 14326824099506036322 * s4 + 16750030373530649240 * s5 + 567590961228605744 * s6 + 3305769176941360911 * s7 + 16162169544256723442 * s8 + 15781486664476971789 * s9 + 5656405359499826694 * s10 + 14405311909503260201 * s11 - q11 * m) == s1 + m * t
        }),
{
    61738184131449895789 * s0 + 58871484988645478748 * s1 + 67264146514602417061 * s2
        + 41936603517302068400 * s3 + 61221514012170757556 * s4 + 45201650476194823950 * s5
        + 46722119742035706328 * s6 + 36488994014978771514 * s7 + 45050286555954890562 * s8
        + 45527644572495959860 * s9 + 55645641431244196637 * s10 + 62506558408566076795 * s11
        - 17836000848669323461 * q0 - 8642507343089032585 * q1 - 8222042489599816299 * q2
        - 14286433228805461667 * q3 - 14150601651494101064 * q4 - 3502610110434428933 * q5
        - 6621075793412742457 * q6 - 13912617123037567676 * q7 - 6398010452131362916 * q8
        - 14182317465044732728 * q9 - 595200314641734087 * q10 - 3726536648170807106 * q11
}

/// Element 1 of a state comes back when the mixing is undone.
proof fn lemma_round_trip_row_1(s: Seq<u64>)
    requires
        is_canonical_state(s),
    ensures
        mixed(INV_MDS@, mixed(MDS@, s))[1] == s[1],
{
    let m = F64::modulus();
    let y = mixed(MDS@, s);
    let q0 = lemma_mixed_entry_0(s);
    let q1 = lemma_mixed_entry_1(s);
    let q2 = lemma_mixed_entry_2(s);
    let q3 = lemma_mixed_entry_3(s);
    let q4 = lemma_mixed_entry_4(s);
    let q5 = lemma_mixed_entry_5(s);
    let q6 = lemma_mixed_entry_6(s);
    let q7 = lemma_mixed_entry_7(s);
    let q8 = lemma_mixed_entry_8(s);
    let q9 = lemma_mixed_entry_9(s);
    let q10 = lemma_mixed_entry_10(s);
    let q11 = lemma_mixed_entry_11(s);
    let t = lemma_product_row_1(s[0] as int, s[1] as int, s[2] as int, s[3] as int, s[4] as int, s[5] as int, s[6] as int, s[7] as int, s[8] as int, s[9] as int, s[10] as int, s[11] as int, q0, q1, q2, q3, q4, q5, q6, q7, q8, q9, q10, q11);
    lemma_inv_mds_row_1();
    lemma_row_dot_of_known_row(INV_MDS@, 1, y, 17836000848669323461, 8642507343089032585, 8222042489599816299, 14286433228805461667, 14150601651494101064, 3502610110434428933, 6621075793412742457, 13912617123037567676, 6398010452131362916, 14182317465044732728, 595200314641734087, 3726536648170807106);
    assert(row_dot(INV_MDS@, 1, y, 12) == s[1] + m * t);
    lemma_mod_multiples_vanish(t, s[1] as int, m);
    lemma_small_mod(s[1] as nat, m as nat);
}

/// Row 2 of the product of the two matrices is row 2 of the identity, up to
/// multiples of the modulus.
proof fn lemma_product_row_2(s0: int, s1: int, s2: int, s3: int, s4: int, s5: int, s6: int, s7: int, s8: int, s9: int, s10: int, s11: int, q0: int, q1: int, q2: int, q3: int, q4: int, q5: int, q6: int, q7: int, q8: int, q9: int, q10: int, q11: int) -> (t: int)
    ensures
        ({
            let m = F64::modulus();
            778074229987396986 * (14570791697008582876 * s0 + 14287730469917200292 * s1 + 15111342538701370819 * s2 + 1111401104756727833 * s3 + 18343752991270580578 * s4 + 10395724785100660355 * s5 + 14391941175009286906 * s6 + 5491581447267359356 * s7 + 1031244057765854727 * s8 + 2741392851187030668 * s9 + 8356433820458919454 * s10 + 10361960094523491469 * s11 - q0 * m)
                + 18125236013805002112 * (17296841519685941390 * s0 + 1598937820631795543 * s1 + 18252132164632030075 * s2 + 241444688886262292 * s3 + 17599434116007097224 * s4 + 9231563221418652240 * s5 + 15805688995498349990 * s6 + 17256539972135898838 * s7 + 2330753493485837824 * s8 + 6251316318077619492 * s9 + 7679024702804679152 * s10 + 2943046310091653711 * s11 - q1 * m)
                + 16795870930471535933 * (8765181257382270816 * s0 + 2214393267250057585 * s1 + 10440968658565732009 * s2 + 9245417370235283261 * s3 + 10903600118637896817 * s4 + 4336409820707567775 * s5 + 373156886479152405 * s6 + 6889031455917031511 * s7 + 3512102634804595716 * s8 + 10883465930001183358 * s9 + 111817104814006178 * s10 + 13147393342693302215 * s11 - q2 * m)
                + 4444993276877870520 * (16731403170144839149 * s0 + 4199639565163130888 * s1 + 11662145218068586336 * s2 + 12136048551747257563 * s3 + 16207916864411664082 * s4 + 5795305278626201409 * s5 + 3540476316084861152 * s6 + 1979412480869555052 * s7 + 15915841166779902642 * s8 + 12798161080806683411 * s9 + 13864641321606711741 * s10 + 15619568278035706351 * s11 - q3 * m)
                + 7742856852104202289 * (6996727129159569475 * s0 + 13016806715252432443 * s1 + 10084910677946480774 * s2 + 4854976610017568115 * s3 + 3183560086131749081 * s4 + 84343487446798268 * s5 + 6976577640482780112 * s6 + 1974323274754175061 * s7 + 3184820667768309286 * s8 + 2042442151413916954 * s9 + 12542679131679444027 * s10 + 8555877572558139340 * s11 - q4 * m)
                + 4607989154756352997 * (1958751724798615870 * s0 + 6883794720630798095 * s1 + 7822377053889412653 * s2 + 5881955449915523948 * s3 + 1826773441475877560 * s4 + 14596945442992680206 * s5 + 15525428857452141988 * s6 + 2300675574592518485 * s7 + 14076693432158095299 * s8 + 3913142224341430328 * s9 + 15645746834898234524 * s10 + 10122456385203566801 * s11 - q5 * m)
                + 13952151892042504619 * (17729236334518869820 * s0 + 1749133568562304236 * s1 + 11557582145195575097 * s2 + 12354965089547101180 * s3 + 2660703340589826608 * s4 + 440334420312600854 * s5 + 2198333919637551622 * s6 + 18369576650529043046 * s7 + 7627007928139490203 * s8 + 777383514316169044 * s9 + 7198059378673430489 * s10 + 9515098447333107659 * s11 - q6 * m)
                + 14813786624882131127 * (806473578789499443 * s0 + 9336648523780571670 * s1 + 5686967342712013436 * s2 + 12904381239407564150 * s3 + 4756705991254623925 * s4 + 10206157924696479727 * s5 + 4806103767866561340 * s6 + 1872796239547928750 * s7 + 17178476308939330252 * s8 + 11771556405037973998 * s9 + 9117917859381111393 * s10 + 13067245698773587742 * s11 - q7 * m)
                + 1011914663726019958 * (10499199438819993852 * s0 + 12171212168422477108 * s1 + 5578998829898290932 * s2 + 12178641820241082619 * s3 + 4420340793047171628 * s4 + 1530190253010972336 * s5 + 15239962422294736463 * s6 + 15238687364083809199 * s7 + 12238023565508403339 * s8 + 849083947368781781 * s9 + 7020919173690859117 * s10 + 6037995052907795325 * s11 - q8 * m)
                + 6259265713670753298 * (6617094955015694929 * s0 + 17709895726490950223 * s1 + 12395004788391953988 * s2 + 4443167981067561554 * s3 + 7500390692332462441 * s4 + 12515433586262237946 * s5 + 5152881173520844228 * s6 + 2876311526543549543 * s7 + 665794271176964969 * s8 + 13140309957664961201 * s9 + 9790029746103080496 * s10 + 7580688024839866118 * s11 - q9 * m)
                + 15987952731985786134 * (10321065351363958810 * s0 + 8558373207059165438 * s1 + 15379391566111639810 * s2 + 14892201863785415949 * s3 + 9350656882348467407 * s4 + 5434254718692813409 * s5 + 12942082639379970277 * s6 + 11437571946551726842 * s7 + 7388656188826905221 * s8 + 4131080631675148417 * s9 + 721505112626253183 * s10 + 17463850698301825653 * s11 - q10 * m)
                + 8099775052664498557 * (4496862336099562608 * s0 + 14815253423827224307 * s1 + 3941759144983839864 * s2 + 496394397619911104 * s3 + 14326824099506036322 * s4 + 16750030373530649240 * s5 + 567590961228605744 * s6 + 3305769176941360911 * s7 + 16162169544256723442 * s8 + 15781486664476971789 * s9 + 5656405359499826694 * s10 + 14405311909503260201 * s11 - q11 * m) == s2 + m * t
        }),
{
    60846702496820232872 * s0 + 41805716753383986794 * s1 + 69955805458991082580 * s2
        + 50142083874627596412 * s3 + 56707193025679065971 * s4 + 43460125098781260888 * s5
        + 43709720710822356191 * s6 + 53914522603273547772 * s7 + 48181372066548276824 * s8
        + 46142564946700961221 * s9 + 40095815622969269077 * s10 + 67238406059618200078 * s11
        - 778074229987396986 * q0 - 18125236013805002112 * q1 - 16795870930471535933 * q2
        - 4444993276877870520 * q3 - 7742856852104202289 * q4 - 4607989154756352997 * q5
        - 13952151892042504619 * q6 - 14813786624882131127 * q7 - 1011914663726019958 * q8
        - 6259265713670753298 * q9 - 15987952731985786134 * q10 - 8099775052664498557 * q11
}

/// Element 2 of a state comes back when the mixing is undone.
proof fn lemma_round_trip_row_2(s: Seq<u64>)
    requires
        is_canonical_state(s),
    ensures
        mixed(INV_MDS@, mixed(MDS@, s))[2] == s[2],
{
    let m = F64::modulus();
    let y = mixed(MDS@, s);
    let q0 = lemma_mixed_entry_0(s);
    let q1 = lemma_mixed_entry_1(s);
    let q2 = lemma_mixed_entry_2(s);
    let q3 = lemma_mixed_entry_3(s);
    let q4 = lemma_mixed_entry_4(s);
    let q5 = lemma_mixed_entry_5(s);
    let q6 = lemma_mixed_entry_6(s);
    let q7 = lemma_mixed_entry_7(s);
    let q8 = lemma_mixed_entry_8(s);
    let q9 = lemma_mixed_entry_9(s);
    let q10 = lemma_mixed_entry_10(s);
    let q11 = lemma_mixed_entry_11(s);
    let t = lemma_product_row_2(s[0] as int, s[1] as int, s[2] as int, s[3] as int, s[4] as int, s[5] as int, s[6] as int, s[7] as int, s[8] as int, s[9] as int, s[10] as int, s[11] as int, q0, q1, q2, q3, q4, q5, q6, q7, q8, q9, q10, q11);
    lemma_inv_mds_row_2();
    lemma_row_dot_of_known_row(INV_MDS@, 2, y, 778074229987396986, 18125236013805002112, 16795870930471535933, 4444993276877870520, 7742856852104202289, 4607989154756352997, 13952151892042504619, 14813786624882131127, 1011914663726019958, 6259265713670753298, 15987952731985786134, 8099775052664498557);
    assert(row_dot(INV_MDS@, 2, y, 12) == s[2] + m * t);
    lemma_mod_multiples_vanish(t, s[2] as int, m);
    lemma_small_mod(s[2] as nat, m as nat);
}

/// Row 3 of the product of the two matrices is row 3 of the identity, up to
/// multiples of the modulus.
proof fn lemma_product_row_3(s0: int, s1: int, s2: int, s3: int, s4: int, s5: int, s6: int, s7: int, s8: int, s9: int, s10: int, s11: int, q0: int, q1: int, q2: int, q3: int, q4: int, q5: int, q6: int, q7: int, q8: int, q9: int, q10: int, q11: int) -> (t: int)
    ensures
        ({
            let m = F64::modulus();
            7398913649889091650 * (14570791697008582876 * s0 + 14287730469917200292 * s1 + 15111342538701370819 * s2 + 1111401104756727833 * s3 + 18343752991270580578 * s4 + 10395724785100660355 * s5 + 14391941175009286906 * s6 + 5491581447267359356 * s7 + 1031244057765854727 * s8 + 2741392851187030668 * s9 + 8356433820458919454 * s10 + 10361960094523491469 * s11 - q0 * m)
                + 12440566968934204138 * (17296841519685941390 * s0 + 1598937820631795543 * s1 + 18252132164632030075 * s2 + 241444688886262292 * s3 + 17599434116007097224 * s4 + 9231563221418652240 * s5 + 15805688995498349990 * s6 + 17256539972135898838 * s7 + 2330753493485837824 * s8 + 6251316318077619492 * s9 + 7679024702804679152 * s10 + 2943046310091653711 * s11 - q1 * m)
                + 17649990195444781456 * (8765181257382270816 * s0 + 2214393267250057585 * s1 + 10440968658565732009 * s2 + 9245417370235283261 * s3 + 10903600118637896817 * s4 + 4336409820707567775 * s5 + 373156886479152405 * s6 + 6889031455917031511 * s7 + 3512102634804595716 * s8 + 10883465930001183358 * s9 + 111817104814006178 * s10 + 13147393342693302215 * s11 - q2 * m)
                + 11538885883660364618 * (16731403170144839149 * s0 + 4199639565163130888 * s1 + 11662145218068586336 * s2 + 12136048551747257563 * s3 + 16207916864411664082 * s4 + 5795305278626201409 * s5 + 3540476316084861152 * s6 + 1979412480869555052 * s7 + 15915841166779902642 * s8 + 12798161080806683411 * s9 + 13864641321606711741 * s10 + 15619568278035706351 * s11 - q3 * m)
                + 4407645622865595120 * (6996727129159569475 * s0 + 13016806715252432443 * s1 + 10084910677946480774 * s2 + 4854976610017568115 * s3 + 3183560086131749081 * s4 + 84343487446798268 * s5 + 6976577640482780112 * s6 + 1974323274754175061 * s7 + 3184820667768309286 * s8 + 2042442151413916954 * s9 + 12542679131679444027 * s10 + 8555877572558139340 * s11 - q4 * m)
                + 6633698812571631570 * (1958751724798615870 * s0 + 6883794720630798095 * s1 + 7822377053889412653 * s2 + 5881955449915523948 * s3 + 1826773441475877560 * s4 + 14596945442992680206 * s5 + 15525428857452141988 * s6 + 2300675574592518485 * s7 + 14076693432158095299 * s8 + 3913142224341430328 * s9 + 15645746834898234524 * s10 + 10122456385203566801 * s11 - q5 * m)
                + 15650872682003063574 * (17729236334518869820 * s0 + 1749133568562304236 * s1 + 11557582145195575097 * s2 + 12354965089547101180 * s3 + 2660703340589826608 * s4 + 440334420312600854 * s5 + 2198333919637551622 * s6 + 18369576650529043046 * s7 + 7627007928139490203 * s8 + 777383514316169044 * s9 + 7198059378673430489 * s10 + 9515098447333107659 * s11 - q6 * m)
                + 9519805421328796770 * (806473578789499443 * s0 + 9336648523780571670 * s1 + 5686967342712013436 * s2 + 12904381239407564150 * s3 + 4756705991254623925 * s4 + 10206157924696479727 * s5 + 4806103767866561340 * s6 + 1872796239547928750 * s7 + 17178476308939330252 * s8 + 11771556405037973998 * s9 + 9117917859381111393 * s10 + 13067245698773587742 * s11 - q7 * m)
                + 15112307222930510924 * (10499199438819993852 * s0 + 12171212168422477108 * s1 + 5578998829898290932 * s2 + 12178641820241082619 * s3 + 4420340793047171628 * s4 + 1530190253010972336 * s5 + 15239962422294736463 * s6 + 15238687364083809199 * s7 + 12238023565508403339 * s8 + 849083947368781781 * s9 + 7020919173690859117 * s10 + 6037995052907795325 * s11 - q8 * m)
                + 5842544410030482907 * (6617094955015694929 * s0 + 17709895726490950223 * s1 + 12395004788391953988 * s2 + 4443167981067561554 * s3 + 7500390692332462441 * s4 + 12515433586262237946 * s5 + 5152881173520844228 * s6 + 2876311526543549543 * s7 + 665794271176964969 * s8 + 13140309957664961201 * s9 + 9790029746103080496 * s10 + 7580688024839866118 * s11 - q9 * m)
                + 17158972732500521844 * (10321065351363958810 * s0 + 8558373207059165438 * s1 + 15379391566111639810 * s2 + 14892201863785415949 * s3 + 9350656882348467407 * s4 + 5434254718692813409 * s5 + 12942082639379970277 * s6 + 11437571946551726842 * s7 + 7388656188826905221 * s8 + 4131080631675148417 * s9 + 721505112626253183 * s10 + 17463850698301825653 * s11 - q10 * m)
                + 8459189118411299370 * (4496862336099562608 * s0 + 14815253423827224307 * s1 + 3941759144983839864 * s2 + 496394397619911104 * s3 + 14326824099506036322 * s4 + 16750030373530649240 * s5 + 567590961228605744 * s6 + 3305769176941360911 * s7 + 16162169544256723442 * s8 + 15781486664476971789 * s9 + 5656405359499826694 * s10 + 14405311909503260201 * s11 - q11 * m) == s3 + m * t
        }),
{
    76556193901118049187 * s0 + 53778025733444150011 * s1 + 78228504150485896352 * s2
        + 62928014102205581985 * s3 + 67192342370656439397 * s4 + 47033354478071192640 * s5
        + 57015334976599190920 * s6 + 65071370880995925845 * s7 + 60982259558927255697 * s8
        + 48301294169538492991 * s9 + 48863662664139452130 * s10 + 79190103906140215090 * s11
        - 7398913649889091650 * q0 - 12440566968934204138 * q1 - 17649990195444781456 * q2
        - 11538885883660364618 * q3 - 4407645622865595120 * q4 - 6633698812571631570 * q5
        - 15650872682003063574 * q6 - 9519805421328796770 * q7 - 15112307222930510924 * q8
        - 5842544410030482907 * q9 - 17158972732500521844 * q10 - 8459189118411299370 * q11
}

/// Element 3 of a state comes back when the mixing is undone.
proof fn lemma_round_trip_row_3(s: Seq<u64>)
    requires
        is_canonical_state(s),
    ensures
        mixed(INV_MDS@, mixed(MDS@, s))[3] == s[3],
{
    let m = F64::modulus();
    let y = mixed(MDS@, s);
    let q0 = lemma_mixed_entry_0(s);
    let q1 = lemma_mixed_entry_1(s);
    let q2 = lemma_mixed_entry_2(s);
    let q3 = lemma_mixed_entry_3(s);
    let q4 = lemma_mixed_entry_4(s);
    let q5 = lemma_mixed_entry_5(s);
    let q6 = lemma_mixed_entry_6(s);
    let q7 = lemma_mixed_entry_7(s);
    let q8 = lemma_mixed_entry_8(s);
    let q9 = lemma_mixed_entry_9(s);
    let q10 = lemma_mixed_entry_10(s);
    let q11 = lemma_mixed_entry_11(s);
    let t = lemma_product_row_3(s[0] as int, s[1] as int, s[2] as int, s[3] as int, s[4] as int, s[5] as int, s[6] as int, s[7] as int, s[8] as int, s[9] as int, s[10] as int, s[11] as int, q0, q1, q2, q3, q4, q5, q6, q7, q8, q9, q10, q11);
    lemma_inv_mds_row_3();
    lemma_row_dot_of_known_row(INV_MDS@, 3, y, 7398913649889091650, 12440566968934204138, 17649990195444781456, 11538885883660364618, 4407645622865595120, 6633698812571631570, 15650872682003063574, 9519805421328796770, 15112307222930510924, 5842544410030482907, 17158972732500521844, 8459189118411299370);
    assert(row_dot(INV_MDS@, 3, y, 12) == s[3] + m * t);
    lemma_mod_multiples_vanish(t, s[3] as int, m);
    lemma_small_mod(s[3] as nat, m as nat);
}

/// Row 4 of the product of the two matrices is row 4 of the identity, up to
/// multiples of the modulus.
proof fn lemma_product_row_4(s0: int, s1: int, s2: int, s3: int, s4: int, s5: int, s6: int, s7: int, s8: int, s9: int, s10: int, s11: int, q0: int, q1: int, q2: int, q3: int, q4: int, q5: int, q6: int, q7: int, q8: int, q9: int, q10: int, q11: int) -> (t: int)
    ensures
        ({
            let m = F64::modulus();
            15998460101840940499 * (14570791697008582876 * s0 + 14287730469917200292 * s1 + 15111342538701370819 * s2 + 1111401104756727833 * s3 + 18343752991270580578 * s4 + 10395724785100660355 * s5 + 14391941175009286906 * s6 + 5491581447267359356 * s7 + 1031244057765854727 * s8 + 2741392851187030668 * s9 + 8356433820458919454 * s10 + 10361960094523491469 * s11 - q0 * m)
                + 13289066588927556646 * (17296841519685941390 * s0 + 1598937820631795543 * s1 + 18252132164632030075 * s2 + 241444688886262292 * s3 + 17599434116007097224 * s4 + 9231563221418652240 * s5 + 15805688995498349990 * s6 + 17256539972135898838 * s7 + 2330753493485837824 * s8 + 6251316318077619492 * s9 + 7679024702804679152 * s10 + 2943046310091653711 * s11 - q1 * m)
                + 3933740661569359061 * (8765181257382270816 * s0 + 2214393267250057585 * s1 + 10440968658565732009 * s2 + 9245417370235283261 * s3 + 10903600118637896817 * s4 + 4336409820707567775 * s5 + 373156886479152405 * s6 + 6889031455917031511 * s7 + 3512102634804595716 * s8 + 10883465930001183358 * s9 + 111817104814006178 * s10 + 13147393342693302215 * s11 - q2 * m)
                + 8545689675015500335 * (16731403170144839149 * s0 + 4199639565163130888 * s1 + 11662145218068586336 * s2 + 12136048551747257563 * s3 + 16207916864411664082 * s4 + 5795305278626201409 * s5 + 3540476316084861152 * s6 + 1979412480869555052 * s7 + 15915841166779902642 * s8 + 12798161080806683411 * s9 + 13864641321606711741 * s10 + 15619568278035706351 * s11 - q3 * m)
                + 10937438662640227039 * (6996727129159569475 * s0 + 13016806715252432443 * s1 + 10084910677946480774 * s2 + 4854976610017568115 * s3 + 3183560086131749081 * s4 + 84343487446798268 * s5 + 6976577640482780112 * s6 + 1974323274754175061 * s7 + 3184820667768309286 * s8 + 2042442151413916954 * s9 + 12542679131679444027 * s10 + 8555877572558139340 * s11 - q4 * m)
                + 9542846015371531580 * (1958751724798615870 * s0 + 6883794720630798095 * s1 + 7822377053889412653 * s2 + 5881955449915523948 * s3 + 1826773441475877560 * s4 + 14596945442992680206 * s5 + 15525428857452141988 * s6 + 2300675574592518485 * s7 + 14076693432158095299 * s8 + 3913142224341430328 * s9 + 15645746834898234524 * s10 + 10122456385203566801 * s11 - q5 * m)
                + 8719735068114913444 * (17729236334518869820 * s0 + 1749133568562304236 * s1 + 11557582145195575097 * s2 + 12354965089547101180 * s3 + 2660703340589826608 * s4 + 440334420312600854 * s5 + 2198333919637551622 * s6 + 18369576650529043046 * s7 + 7627007928139490203 * s8 + 777383514316169044 * s9 + 7198059378673430489 * s10 + 9515098447333107659 * s11 - q6 * m)
                + 7998938619901238697 * (806473578789499443 * s0 + 9336648523780571670 * s1 + 5686967342712013436 * s2 + 12904381239407564150 * s3 + 4756705991254623925 * s4 + 10206157924696479727 * s5 + 4806103767866561340 * s6 + 1872796239547928750 * s7 + 17178476308939330252 * s8 + 11771556405037973998 * s9 + 9117917859381111393 * s10 + 13067245698773587742 * s11 - q7 * m)
                + 8429477668004913435 * (10499199438819993852 * s0 + 12171212168422477108 * s1 + 5578998829898290932 * s2 + 12178641820241082619 * s3 + 4420340793047171628 * s4 + 1530190253010972336 * s5 + 15239962422294736463 * s6 + 15238687364083809199 * s7 + 12238023565508403339 * s8 + 849083947368781781 * s9 + 7020919173690859117 * s10 + 6037995052907795325 * s11 - q8 * m)
                + 12463336703870748155 * (6617094955015694929 * s0 + 17709895726490950223 * s1 + 12395004788391953988 * s2 + 4443167981067561554 * s3 + 7500390692332462441 * s4 + 12515433586262237946 * s5 + 5152881173520844228 * s6 + 2876311526543549543 * s7 + 665794271176964969 * s8 + 13140309957664961201 * s9 + 9790029746103080496 * s10 + 7580688024839866118 * s11 - q9 * m)
                + 12698637456361551034 * (10321065351363958810 * s0 + 8558373207059165438 * s1 + 15379391566111639810 * s2 + 14892201863785415949 * s3 + 9350656882348467407 * s4 + 5434254718692813409 * s5 + 12942082639379970277 * s6 + 11437571946551726842 * s7 + 7388656188826905221 * s8 + 4131080631675148417 * s9 + 721505112626253183 * s10 + 17463850698301825653 * s11 - q10 * m)
                + 15219260363080271871 * (4496862336099562608 * s0 + 14815253423827224307 * s1 + 3941759144983839864 * s2 + 496394397619911104 * s3 + 14326824099506036322 * s4 + 16750030373530649240 * s5 + 567590961228605744 * s6 + 3305769176941360911 * s7 + 16162169544256723442 * s8 + 15781486664476971789 * s9 + 5656405359499826694 * s10 + 14405311909503260201 * s11 - q11 * m) == s4 + m * t
        }),
{
    68693434329531672382 * s0 + 67757473115241158588 * s1 + 76602347053524153410 * s2
        + 45317263625341129965 * s3 + 69919048496717598599 * s4 + 58226430177208135054 * s5
        + 60702468851985749266 * s6 + 50944387856429599075 * s7 + 55383229911589495257 * s8
        + 48968278653971845746 * s9 + 57099294106869187496 * s10 + 73407911283036249305 * s11
        - 15998460101840940499 * q0 - 13289066588927556646 * q1 - 3933740661569359061 * q2
        - 8545689675015500335 * q3 - 10937438662640227039 * q4 - 9542846015371531580 * q5
        - 8719735068114913444 * q6 - 7998938619901238697 * q7 - 8429477668004913435 * q8
        - 12463336703870748155 * q9 - 12698637456361551034 * q10 - 15219260363080271871 * q11
}

/// Element 4 of a state comes back when the mixing is undone.
proof fn lemma_round_trip_row_4(s: Seq<u64>)
    requires
        is_canonical_state(s),
    ensures
        mixed(INV_MDS@, mixed(MDS@, s))[4] == s[4],
{
    let m = F64::modulus();
    let y = mixed(MDS@, s);
    let q0 = lemma_mixed_entry_0(s);
    let q1 = lemma_mixed_entry_1(s);
    let q2 = lemma_mixed_entry_2(s);
    let q3 = lemma_mixed_entry_3(s);
    let q4 = lemma_mixed_entry_4(s);
    let q5 = lemma_mixed_entry_5(s);
    let q6 = lemma_mixed_entry_6(s);
    let q7 = lemma_mixed_entry_7(s);
    let q8 = lemma_mixed_entry_8(s);
    let q9 = lemma_mixed_entry_9(s);
    let q10 = lemma_mixed_entry_10(s);
    let q11 = lemma_mixed_entry_11(s);
    let t = lemma_product_row_4(s[0] as int, s[1] as int, s[2] as int, s[3] as int, s[4] as int, s[5] as int, s[6] as int, s[7] as int, s[8] as int, s[9] as int, s[10] as int, s[11] as int, q0, q1, q2, q3, q4, q5, q6, q7, q8, q9, q10, q11);
    lemma_inv_mds_row_4();
    lemma_row_dot_of_known_row(INV_MDS@, 4, y, 15998460101840940499, 13289066588927556646, 3933740661569359061, 8545689675015500335, 10937438662640227039, 9542846015371531580, 8719735068114913444, 7998938619901238697, 8429477668004913435, 12463336703870748155, 12698637456361551034, 15219260363080271871);
    assert(row_dot(INV_MDS@, 4, y, 12) == s[4] + m * t);
    lemma_mod_multiples_vanish(t, s[4] as int, m);
    lemma_small_mod(s[4] as nat, m as nat);
}

/// Row 5 of the product of the two matrices is row 5 of the identity, up to
/// multiples of the modulus.
proof fn lemma_product_row_5(s0: int, s1: int, s2: int, s3: int, s4: int, s5: int, s6: int, s7: int, s8: int, s9: int, s10: int, s11: int, q0: int, q1: int, q2: int, q3: int, q4: int, q5: int, q6: int, q7: int, q8: int, q9: int, q10: int, q11: int) -> (t: int)
    ensures
        ({
            let m = F64::modulus();
            16868883943436188794 * (14570791697008582876 * s0 + 14287730469917200292 * s1 + 15111342538701370819 * s2 + 1111401104756727833 * s3 + 18343752991270580578 * s4 + 10395724785100660355 * s5 + 14391941175009286906 * s6 + 5491581447267359356 * s7 + 1031244057765854727 * s8 + 2741392851187030668 * s9 + 8356433820458919454 * s10 + 10361960094523491469 * s11 - q0 * m)
                + 9657158665570915168 * (17296841519685941390 * s0 + 1598937820631795543 * s1 + 18252132164632030075 * s2 + 241444688886262292 * s3 + 17599434116007097224 * s4 + 9231563221418652240 * s5 + 15805688995498349990 * s6 + 17256539972135898838 * s7 + 2330753493485837824 * s8 + 6251316318077619492 * s9 + 7679024702804679152 * s10 + 2943046310091653711 * s11 - q1 * m)
                + 18237013319928696607 * (8765181257382270816 * s0 + 2214393267250057585 * s1 + 10440968658565732009 * s2 + 9245417370235283261 * s3 + 10903600118637896817 * s4 + 4336409820707567775 * s5 + 373156886479152405 * s6 + 6889031455917031511 * s7 + 3512102634804595716 * s8 + 10883465930001183358 * s9 + 111817104814006178 * s10 + 13147393342693302215 * s11 - q2 * m)
                + 17503060276710891958 * (16731403170144839149 * s0 + 4199639565163130888 * s1 + 11662145218068586336 * s2 + 12136048551747257563 * s3 + 16207916864411664082 * s4 + 5795305278626201409 * s5 + 3540476316084861152 * s6 + 1979412480869555052 * s7 + 15915841166779902642 * s8 + 12798161080806683411 * s9 + 13864641321606711741 * s10 + 15619568278035706351 * s11 - q3 * m)
                + 14055586713560957601 * (6996727129159569475 * s0 + 13016806715252432443 * s1 + 10084910677946480774 * s2 + 4854976610017568115 * s3 + 3183560086131749081 * s4 + 84343487446798268 * s5 + 6976577640482780112 * s6 + 1974323274754175061 * s7 + 3184820667768309286 * s8 + 2042442151413916954 * s9 + 12542679131679444027 * s10 + 8555877572558139340 * s11 - q4 * m)
                + 2362219746134802271 * (1958751724798615870 * s0 + 6883794720630798095 * s1 + 7822377053889412653 * s2 + 5881955449915523948 * s3 + 1826773441475877560 * s4 + 14596945442992680206 * s5 + 15525428857452141988 * s6 + 2300675574592518485 * s7 + 14076693432158095299 * s8 + 3913142224341430328 * s9 + 15645746834898234524 * s10 + 10122456385203566801 * s11 - q5 * m)
                + 15127897720041080031 * (17729236334518869820 * s0 + 1749133568562304236 * s1 + 11557582145195575097 * s2 + 12354965089547101180 * s3 + 2660703340589826608 * s4 + 440334420312600854 * s5 + 2198333919637551622 * s6 + 18369576650529043046 * s7 + 7627007928139490203 * s8 + 777383514316169044 * s9 + 7198059378673430489 * s10 + 9515098447333107659 * s11 - q6 * m)
                + 9230115648985830785 * (806473578789499443 * s0 + 9336648523780571670 * s1 + 5686967342712013436 * s2 + 12904381239407564150 * s3 + 4756705991254623925 * s4 + 10206157924696479727 * s5 + 4806103767866561340 * s6 + 1872796239547928750 * s7 + 17178476308939330252 * s8 + 11771556405037973998 * s9 + 9117917859381111393 * s10 + 13067245698773587742 * s11 - q7 * m)
                + 17475888821200468490 * (10499199438819993852 * s0 + 12171212168422477108 * s1 + 5578998829898290932 * s2 + 12178641820241082619 * s3 + 4420340793047171628 * s4 + 1530190253010972336 * s5 + 15239962422294736463 * s6 + 15238687364083809199 * s7 + 12238023565508403339 * s8 + 849083947368781781 * s9 + 7020919173690859117 * s10 + 6037995052907795325 * s11 - q8 * m)
                + 4505598155300055020 * (6617094955015694929 * s0 + 17709895726490950223 * s1 + 12395004788391953988 * s2 + 4443167981067561554 * s3 + 7500390692332462441 * s4 + 12515433586262237946 * s5 + 5152881173520844228 * s6 + 2876311526543549543 * s7 + 665794271176964969 * s8 + 13140309957664961201 * s9 + 9790029746103080496 * s10 + 7580688024839866118 * s11 - q9 * m)
                + 18226760539284171314 * (10321065351363958810 * s0 + 8558373207059165438 * s1 + 15379391566111639810 * s2 + 14892201863785415949 * s3 + 9350656882348467407 * s4 + 5434254718692813409 * s5 + 12942082639379970277 * s6 + 11437571946551726842 * s7 + 7388656188826905221 * s8 + 4131080631675148417 * s9 + 721505112626253183 * s10 + 17463850698301825653 * s11 - q10 * m)
                + 15727384124014280557 * (4496862336099562608 * s0 + 14815253423827224307 * s1 + 3941759144983839864 * s2 + 496394397619911104 * s3 + 14326824099506036322 * s4 + 16750030373530649240 * s5 + 567590961228605744 * s6 + 3305769176941360911 * s7 + 16162169544256723442 * s8 + 15781486664476971789 * s9 + 5656405359499826694 * s10 + 14405311909503260201 * s11 - q11 * m) == s5 + m * t
        }),
{
    93040437913981391002 * s0 + 73926418211436295788 * s1 + 92641078800894051477 * s2
        + 70600506053000417168 * s3 + 86842048918669130785 * s4 + 55683523665054046445 * s5
        + 65643431227276175169 * s6 + 69804265185639920434 * s7 + 72653327474124873392 * s8
        + 58818439693570901617 * s9 + 61531530696782449933 * s10 + 98100930179260353628 * s11
        - 16868883943436188794 * q0 - 9657158665570915168 * q1 - 18237013319928696607 * q2
        - 17503060276710891958 * q3 - 14055586713560957601 * q4 - 2362219746134802271 * q5
        - 15127897720041080031 * q6 - 9230115648985830785 * q7 - 17475888821200468490 * q8
        - 4505598155300055020 * q9 - 18226760539284171314 * q10 - 15727384124014280557 * q11
}

/// Element 5 of a state comes back when the mixing is undone.
proof fn lemma_round_trip_row_5(s: Seq<u64>)
    requires
        is_canonical_state(s),
    ensures
        mixed(INV_MDS@, mixed(MDS@, s))[5] == s[5],
{
    let m = F64::modulus();
    let y = mixed(MDS@, s);
    let q0 = lemma_mixed_entry_0(s);
    let q1 = lemma_mixed_entry_1(s);
    let q2 = lemma_mixed_entry_2(s);
    let q3 = lemma_mixed_entry_3(s);
    let q4 = lemma_mixed_entry_4(s);
    let q5 = lemma_mixed_entry_5(s);
    let q6 = lemma_mixed_entry_6(s);
    let q7 = lemma_mixed_entry_7(s);
    let q8 = lemma_mixed_entry_8(s);
    let q9 = lemma_mixed_entry_9(s);
    let q10 = lemma_mixed_entry_10(s);
    let q11 = lemma_mixed_entry_11(s);
    let t = lemma_product_row_5(s[0] as int, s[1] as int, s[2] as int, s[3] as int, s[4] as int, s[5] as int, s[6] as int, s[7] as int, s[8] as int, s[9] as int, s[10] as int, s[11] as int, q0, q1, q2, q3, q4, q5, q6, q7, q8, q9, q10, q11);
    lemma_inv_mds_row_5();
    lemma_row_dot_of_known_row(INV_MDS@, 5, y, 16868883943436188794, 9657158665570915168, 18237013319928696607, 17503060276710891958, 14055586713560957601, 2362219746134802271, 15127897720041080031, 9230115648985830785, 17475888821200468490, 4505598155300055020, 18226760539284171314, 15727384124014280557);
    assert(row_dot(INV_MDS@, 5, y, 12) == s[5] + m * t);
    lemma_mod_multiples_vanish(t, s[5] as int, m);
    lemma_small_mod(s[5] as nat, m as nat);
}

/// Row 6 of the product of the two matrices is row 6 of the identity, up to
/// multiples of the modulus.
proof fn lemma_product_row_6(s0: int, s1: int, s2: int, s3: int, s4: int, s5: int, s6: int, s7: int, s8: int, s9: int, s10: int, s11: int, q0: int, q1: int, q2: int, q3: int, q4: int, q5: int, q6: int, q7: int, q8: int, q9: int, q10: int, q11: int) -> (t: int)
    ensures
        ({
            let m = F64::modulus();
            17298291488582136802 * (14570791697008582876 * s0 + 14287730469917200292 * s1 + 15111342538701370819 * s2 + 1111401104756727833 * s3 + 18343752991270580578 * s4 + 10395724785100660355 * s5 + 14391941175009286906 * s6 + 5491581447267359356 * s7 + 1031244057765854727 * s8 + 2741392851187030668 * s9 + 8356433820458919454 * s10 + 10361960094523491469 * s11 - q0 * m)
                + 14907809634035681815 * (17296841519685941390 * s0 + 1598937820631795543 * s1 + 18252132164632030075 * s2 + 241444688886262292 * s3 + 17599434116007097224 * s4 + 9231563221418652240 * s5 + 15805688995498349990 * s6 + 17256539972135898838 * s7 + 2330753493485837824 * s8 + 6251316318077619492 * s9 + 7679024702804679152 * s10 + 2943046310091653711 * s11 - q1 * m)
                + 16325978558052274623 * (8765181257382270816 * s0 + 2214393267250057585 * s1 + 10440968658565732009 * s2 + 9245417370235283261 * s3 + 10903600118637896817 * s4 + 4336409820707567775 * s5 + 373156886479152405 * s6 + 6889031455917031511 * s7 + 3512102634804595716 * s8 + 10883465930001183358 * s9 + 111817104814006178 * s10 + 13147393342693302215 * s11 - q2 * m)
                + 9352264028973735831 * (16731403170144839149 * s0 + 4199639565163130888 * s1 + 11662145218068586336 * s2 + 12136048551747257563 * s3 + 16207916864411664082 * s4 + 5795305278626201409 * s5 + 3540476316084861152 * s6 + 1979412480869555052 * s7 + 15915841166779902642 * s8 + 12798161080806683411 * s9 + 13864641321606711741 * s10 + 15619568278035706351 * s11 - q3 * m)
                + 917763106859827872 * (6996727129159569475 * s0 + 13016806715252432443 * s1 + 10084910677946480774 * s2 + 4854976610017568115 * s3 + 3183560086131749081 * s4 + 84343487446798268 * s5 + 6976577640482780112 * s6 + 1974323274754175061 * s7 + 3184820667768309286 * s8 + 2042442151413916954 * s9 + 12542679131679444027 * s10 + 8555877572558139340 * s11 - q4 * m)
                + 6675329891611190692 * (1958751724798615870 * s0 + 6883794720630798095 * s1 + 7822377053889412653 * s2 + 5881955449915523948 * s3 + 1826773441475877560 * s4 + 14596945442992680206 * s5 + 15525428857452141988 * s6 + 2300675574592518485 * s7 + 14076693432158095299 * s8 + 3913142224341430328 * s9 + 15645746834898234524 * s10 + 10122456385203566801 * s11 - q5 * m)
                + 3583368781202404030 * (17729236334518869820 * s0 + 1749133568562304236 * s1 + 11557582145195575097 * s2 + 12354965089547101180 * s3 + 2660703340589826608 * s4 + 440334420312600854 * s5 + 2198333919637551622 * s6 + 18369576650529043046 * s7 + 7627007928139490203 * s8 + 777383514316169044 * s9 + 7198059378673430489 * s10 + 9515098447333107659 * s11 - q6 * m)
                + 1391846768326109030 * (806473578789499443 * s0 + 9336648523780571670 * s1 + 5686967342712013436 * s2 + 12904381239407564150 * s3 + 4756705991254623925 * s4 + 10206157924696479727 * s5 + 4806103767866561340 * s6 + 1872796239547928750 * s7 + 17178476308939330252 * s8 + 11771556405037973998 * s9 + 9117917859381111393 * s10 + 13067245698773587742 * s11 - q7 * m)
                + 11727102779244870265 * (10499199438819993852 * s0 + 12171212168422477108 * s1 + 5578998829898290932 * s2 + 12178641820241082619 * s3 + 4420340793047171628 * s4 + 1530190253010972336 * s5 + 15239962422294736463 * s6 + 15238687364083809199 * s7 + 12238023565508403339 * s8 + 849083947368781781 * s9 + 7020919173690859117 * s10 + 6037995052907795325 * s11 - q8 * m)
                + 5531319597647347119 * (6617094955015694929 * s0 + 17709895726490950223 * s1 + 12395004788391953988 * s2 + 4443167981067561554 * s3 + 7500390692332462441 * s4 + 12515433586262237946 * s5 + 5152881173520844228 * s6 + 2876311526543549543 * s7 + 665794271176964969 * s8 + 13140309957664961201 * s9 + 9790029746103080496 * s10 + 7580688024839866118 * s11 - q9 * m)
                + 18392301100737590582 * (10321065351363958810 * s0 + 8558373207059165438 * s1 + 15379391566111639810 * s2 + 14892201863785415949 * s3 + 9350656882348467407 * s4 + 5434254718692813409 * s5 + 12942082639379970277 * s6 + 11437571946551726842 * s7 + 7388656188826905221 * s8 + 4131080631675148417 * s9 + 721505112626253183 * s10 + 17463850698301825653 * s11 - q10 * m)
                + 9476204050182409105 * (4496862336099562608 * s0 + 14815253423827224307 * s1 + 3941759144983839864 * s2 + 496394397619911104 * s3 + 14326824099506036322 * s4 + 16750030373530649240 * s5 + 567590961228605744 * s6 + 3305769176941360911 * s7 + 16162169544256723442 * s8 + 15781486664476971789 * s9 + 5656405359499826694 * s10 + 14405311909503260201 * s11 - q11 * m) == s6 + m * t
        }),
{
    69703455986412135230 * s0 + 52154021297532261588 * s1 + 74703196012352355176 * s2
        + 45494227274666467801 * s3 + 72729207863265005542 * s4 + 48875447485891295352 * s5
        + 59578587789512851877 * s6 + 54488779589112352070 * s7 + 45707373366883138496 * s8
        + 43006230671255618454 * s9 + 40566225213215648110 * s10 + 69497097378749157917 * s11
        - 17298291488582136802 * q0 - 14907809634035681815 * q1 - 16325978558052274623 * q2
        - 9352264028973735831 * q3 - 917763106859827872 * q4 - 6675329891611190692 * q5
        - 3583368781202404030 * q6 - 1391846768326109030 * q7 - 11727102779244870265 * q8
        - 5531319597647347119 * q9 - 18392301100737590582 * q10 - 9476204050182409105 * q11
}

/// Element 6 of a state comes back when the mixing is undone.
proof fn lemma_round_trip_row_6(s: Seq<u64>)
    requires
        is_canonical_state(s),
    ensures
        mixed(INV_MDS@, mixed(MDS@, s))[6] == s[6],
{
    let m = F64::modulus();
    let y = mixed(MDS@, s);
    let q0 = lemma_mixed_entry_0(s);
    let q1 = lemma_mixed_entry_1(s);
    let q2 = lemma_mixed_entry_2(s);
    let q3 = lemma_mixed_entry_3(s);
    let q4 = lemma_mixed_entry_4(s);
    let q5 = lemma_mixed_entry_5(s);
    let q6 = lemma_mixed_entry_6(s);
    let q7 = lemma_mixed_entry_7(s);
    let q8 = lemma_mixed_entry_8(s);
    let q9 = lemma_mixed_entry_9(s);
    let q10 = lemma_mixed_entry_10(s);
    let q11 = lemma_mixed_entry_11(s);
    let t = lemma_product_row_6(s[0] as int, s[1] as int, s[2] as int, s[3] as int, s[4] as int, s[5] as int, s[6] as int, s[7] as int, s[8] as int, s[9] as int, s[10] as int, s[11] as int, q0, q1, q2, q3, q4, q5, q6, q7, q8, q9, q10, q11);
    lemma_inv_mds_row_6();
    lemma_row_dot_of_known_row(INV_MDS@, 6, y, 17298291488582136802, 14907809634035681815, 16325978558052274623, 9352264028973735831, 917763106859827872, 6675329891611190692, 3583368781202404030, 1391846768326109030, 11727102779244870265, 5531319597647347119, 18392301100737590582, 9476204050182409105);
    assert(row_dot(INV_MDS@, 6, y, 12) == s[6] + m * t);
    lemma_mod_multiples_vanish(t, s[6] as int, m);
    lemma_small_mod(s[6] as nat, m as nat);
}

/// Row 7 of the product of the two matrices is row 7 of the identity, up to
/// multiples of the modulus.
proof fn lemma_product_row_7(s0: int, s1: int, s2: int, s3: int, s4: int, s5: int, s6: int, s7: int, s8: int, s9: int, s10: int, s11: int, q0: int, q1: int, q2: int, q3: int, q4: int, q5: int, q6: int, q7: int, q8: int, q9: int, q10: int, q11: int) -> (t: int)
    ensures
        ({
            let m = F64::modulus();
            3285182661460766588 * (14570791697008582876 * s0 + 14287730469917200292 * s1 + 15111342538701370819 * s2 + 1111401104756727833 * s3 + 18343752991270580578 * s4 + 10395724785100660355 * s5 + 14391941175009286906 * s6 + 5491581447267359356 * s7 + 1031244057765854727 * s8 + 2741392851187030668 * s9 + 8356433820458919454 * s10 + 10361960094523491469 * s11 - q0 * m)
                + 14713354330616573571 * (17296841519685941390 * s0 + 1598937820631795543 * s1 + 18252132164632030075 * s2 + 241444688886262292 * s3 + 17599434116007097224 * s4 + 9231563221418652240 * s5 + 15805688995498349990 * s6 + 17256539972135898838 * s7 + 2330753493485837824 * s8 + 6251316318077619492 * s9 + 7679024702804679152 * s10 + 2943046310091653711 * s11 - q1 * m)
                + 7973333729386869825 * (8765181257382270816 * s0 + 2214393267250057585 * s1 + 10440968658565732009 * s2 + 9245417370235283261 * s3 + 10903600118637896817 * s4 + 4336409820707567775 * s5 + 373156886479152405 * s6 + 6889031455917031511 * s7 + 3512102634804595716 * s8 + 10883465930001183358 * s9 + 111817104814006178 * s10 + 13147393342693302215 * s11 - q2 * m)
                + 5171684086232147087 * (16731403170144839149 * s0 + 4199639565163130888 * s1 + 11662145218068586336 * s2 + 12136048551747257563 * s3 + 16207916864411664082 * s4 + 5795305278626201409 * s5 + 3540476316084861152 * s6 + 1979412480869555052 * s7 + 15915841166779902642 * s8 + 12798161080806683411 * s9 + 13864641321606711741 * s10 + 15619568278035706351 * s11 - q3 * m)
                + 12574741318087549907 * (6996727129159569475 * s0 + 13016806715252432443 * s1 + 10084910677946480774 * s2 + 4854976610017568115 * s3 + 3183560086131749081 * s4 + 84343487446798268 * s5 + 6976577640482780112 * s6 + 1974323274754175061 * s7 + 3184820667768309286 * s8 + 2042442151413916954 * s9 + 12542679131679444027 * s10 + 8555877572558139340 * s11 - q4 * m)
                + 1104306757921324325 * (1958751724798615870 * s0 + 6883794720630798095 * s1 + 7822377053889412653 * s2 + 5881955449915523948 * s3 + 1826773441475877560 * s4 + 14596945442992680206 * s5 + 15525428857452141988 * s6 + 2300675574592518485 * s7 + 14076693432158095299 * s8 + 3913142224341430328 * s9 + 15645746834898234524 * s10 + 10122456385203566801 * s11 - q5 * m)
                + 11257236092622508264 * (17729236334518869820 * s0 + 1749133568562304236 * s1 + 11557582145195575097 * s2 + 12354965089547101180 * s3 + 2660703340589826608 * s4 + 440334420312600854 * s5 + 2198333919637551622 * s6 + 18369576650529043046 * s7 + 7627007928139490203 * s8 + 777383514316169044 * s9 + 7198059378673430489 * s10 + 9515098447333107659 * s11 - q6 * m)
                + 11209933342597752755 * (806473578789499443 * s0 + 9336648523780571670 * s1 + 5686967342712013436 * s2 + 12904381239407564150 * s3 + 4756705991254623925 * s4 + 10206157924696479727 * s5 + 4806103767866561340 * s6 + 1872796239547928750 * s7 + 17178476308939330252 * s8 + 11771556405037973998 * s9 + 9117917859381111393 * s10 + 13067245698773587742 * s11 - q7 * m)
                + 14299420251835617036 * (10499199438819993852 * s0 + 12171212168422477108 * s1 + 5578998829898290932 * s2 + 12178641820241082619 * s3 + 4420340793047171628 * s4 + 1530190253010972336 * s5 + 15239962422294736463 * s6 + 15238687364083809199 * s7 + 12238023565508403339 * s8 + 849083947368781781 * s9 + 7020919173690859117 * s10 + 6037995052907795325 * s11 - q8 * m)
                + 13527757428174476772 * (6617094955015694929 * s0 + 17709895726490950223 * s1 + 12395004788391953988 * s2 + 4443167981067561554 * s3 + 7500390692332462441 * s4 + 12515433586262237946 * s5 + 5152881173520844228 * s6 + 2876311526543549543 * s7 + 665794271176964969 * s8 + 13140309957664961201 * s9 + 9790029746103080496 * s10 + 7580688024839866118 * s11 - q9 * m)
                + 8716799942601721461 * (10321065351363958810 * s0 + 8558373207059165438 * s1 + 15379391566111639810 * s2 + 14892201863785415949 * s3 + 9350656882348467407 * s4 + 5434254718692813409 * s5 + 12942082639379970277 * s6 + 11437571946551726842 * s7 + 7388656188826905221 * s8 + 4131080631675148417 * s9 + 721505112626253183 * s10 + 17463850698301825653 * s11 - q10 * m)
                + 5209232145553849842 * (4496862336099562608 * s0 + 14815253423827224307 * s1 + 3941759144983839864 * s2 + 496394397619911104 * s3 + 14326824099506036322 * s4 + 16750030373530649240 * s5 + 567590961228605744 * s6 + 3305769176941360911 * s7 + 16162169544256723442 * s8 + 15781486664476971789 * s9 + 5656405359499826694 * s10 + 14405311909503260201 * s11 - q11 * m) == s7 + m * t
        }),
{
    60204994297383071211 * s0 + 52631046603081733828 * s1 + 64678729315353979543 * s2
        + 46708600419505523118 * s3 + 50746363910115195236 * s4 + 37778176106806138886 * s5
        + 48139496461249470804 * s6 + 52366624031154565582 * s7 + 44160588159015871240 * s8
        + 39724244745294375110 * s9 + 45528839605313360968 * s10 + 57000465793057664891 * s11
        - 3285182661460766588 * q0 - 14713354330616573571 * q1 - 7973333729386869825 * q2
        - 5171684086232147087 * q3 - 12574741318087549907 * q4 - 1104306757921324325 * q5
        - 11257236092622508264 * q6 - 11209933342597752755 * q7 - 14299420251835617036 * q8
        - 13527757428174476772 * q9 - 8716799942601721461 * q10 - 5209232145553849842 * q11
}

/// Element 7 of a state comes back when the mixing is undone.
proof fn lemma_round_trip_row_7(s: Seq<u64>)
    requires
        is_canonical_state(s),
    ensures
        mixed(INV_MDS@, mixed(MDS@, s))[7] == s[7],
{
    let m = F64::modulus();
    let y = mixed(MDS@, s);
    let q0 = lemma_mixed_entry_0(s);
    let q1 = lemma_mixed_entry_1(s);
    let q2 = lemma_mixed_entry_2(s);
    let q3 = lemma_mixed_entry_3(s);
    let q4 = lemma_mixed_entry_4(s);
    let q5 = lemma_mixed_entry_5(s);
    let q6 = lemma_mixed_entry_6(s);
    let q7 = lemma_mixed_entry_7(s);
    let q8 = lemma_mixed_entry_8(s);
    let q9 = lemma_mixed_entry_9(s);
    let q10 = lemma_mixed_entry_10(s);
    let q11 = lemma_mixed_entry_11(s);
    let t = lemma_product_row_7(s[0] as int, s[1] as int, s[2] as int, s[3] as int, s[4] as int, s[5] as int, s[6] as int, s[7] as int, s[8] as int, s[9] as int, s[10] as int, s[11] as int, q0, q1, q2, q3, q4, q5, q6, q7, q8, q9, q10, q11);
    lemma_inv_mds_row_7();
    lemma_row_dot_of_known_row(INV_MDS@, 7, y, 3285182661460766588, 14713354330616573571, 7973333729386869825, 5171684086232147087, 12574741318087549907, 1104306757921324325, 11257236092622508264, 11209933342597752755, 14299420251835617036, 13527757428174476772, 8716799942601721461, 5209232145553849842);
    assert(row_dot(INV_MDS@, 7, y, 12) == s[7] + m * t);
    lemma_mod_multiples_vanish(t, s[7] as int, m);
    lemma_small_mod(s[7] as nat, m as nat);
}

/// Row 8 of the product of the two matrices is row 8 of the identity, up to
/// multiples of the modulus.
proof fn lemma_product_row_8(s0: int, s1: int, s2: int, s3: int, s4: int, s5: int, s6: int, s7: int, s8: int, s9: int, s10: int, s11: int, q0: int, q1: int, q2: int, q3: int, q4: int, q5: int, q6: int, q7: int, q8: int, q9: int, q10: int, q11: int) -> (t: int)
    ensures
        ({
            let m = F64::modulus();
            5100122196584094970 * (14570791697008582876 * s0 + 14287730469917200292 * s1 + 15111342538701370819 * s2 + 1111401104756727833 * s3 + 18343752991270580578 * s4 + 10395724785100660355 * s5 + 14391941175009286906 * s6 + 5491581447267359356 * s7 + 1031244057765854727 * s8 + 2741392851187030668 * s9 + 8356433820458919454 * s10 + 10361960094523491469 * s11 - q0 * m)
                + 14798850424290526893 * (17296841519685941390 * s0 + 1598937820631795543 * s1 + 18252132164632030075 * s2 + 241444688886262292 * s3 + 17599434116007097224 * s4 + 9231563221418652240 * s5 + 15805688995498349990 * s6 + 17256539972135898838 * s7 + 2330753493485837824 * s8 + 6251316318077619492 * s9 + 7679024702804679152 * s10 + 2943046310091653711 * s11 - q1 * m)
                + 4871524293593127428 * (8765181257382270816 * s0 + 2214393267250057585 * s1 + 10440968658565732009 * s2 + 9245417370235283261 * s3 + 10903600118637896817 * s4 + 4336409820707567775 * s5 + 373156886479152405 * s6 + 6889031455917031511 * s7 + 3512102634804595716 * s8 + 10883465930001183358 * s9 + 111817104814006178 * s10 + 13147393342693302215 * s11 - q2 * m)
                + 3964693644228700308 * (16731403170144839149 * s0 + 4199639565163130888 * s1 + 11662145218068586336 * s2 + 12136048551747257563 * s3 + 16207916864411664082 * s4 + 5795305278626201409 * s5 + 3540476316084861152 * s6 + 1979412480869555052 * s7 + 15915841166779902642 * s8 + 12798161080806683411 * s9 + 13864641321606711741 * s10 + 15619568278035706351 * s11 - q3 * m)
                + 13757202860316855114 * (6996727129159569475 * s0 + 13016806715252432443 * s1 + 10084910677946480774 * s2 + 4854976610017568115 * s3 + 3183560086131749081 * s4 + 84343487446798268 * s5 + 6976577640482780112 * s6 + 1974323274754175061 * s7 + 3184820667768309286 * s8 + 2042442151413916954 * s9 + 12542679131679444027 * s10 + 8555877572558139340 * s11 - q4 * m)
                + 1733380378805905884 * (1958751724798615870 * s0 + 6883794720630798095 * s1 + 7822377053889412653 * s2 + 5881955449915523948 * s3 + 1826773441475877560 * s4 + 14596945442992680206 * s5 + 15525428857452141988 * s6 + 2300675574592518485 * s7 + 14076693432158095299 * s8 + 3913142224341430328 * s9 + 15645746834898234524 * s10 + 10122456385203566801 * s11 - q5 * m)
                + 12934883999734076137 * (17729236334518869820 * s0 + 1749133568562304236 * s1 + 11557582145195575097 * s2 + 12354965089547101180 * s3 + 2660703340589826608 * s4 + 440334420312600854 * s5 + 2198333919637551622 * s6 + 18369576650529043046 * s7 + 7627007928139490203 * s8 + 777383514316169044 * s9 + 7198059378673430489 * s10 + 9515098447333107659 * s11 - q6 * m)
                + 16301178884859759514 * (806473578789499443 * s0 + 9336648523780571670 * s1 + 5686967342712013436 * s2 + 12904381239407564150 * s3 + 4756705991254623925 * s4 + 10206157924696479727 * s5 + 4806103767866561340 * s6 + 1872796239547928750 * s7 + 17178476308939330252 * s8 + 11771556405037973998 * s9 + 9117917859381111393 * s10 + 13067245698773587742 * s11 - q7 * m)
                + 4986874405387808053 * (10499199438819993852 * s0 + 12171212168422477108 * s1 + 5578998829898290932 * s2 + 12178641820241082619 * s3 + 4420340793047171628 * s4 + 1530190253010972336 * s5 + 15239962422294736463 * s6 + 15238687364083809199 * s7 + 12238023565508403339 * s8 + 849083947368781781 * s9 + 7020919173690859117 * s10 + 6037995052907795325 * s11 - q8 * m)
                + 3769509608404549933 * (6617094955015694929 * s0 + 17709895726490950223 * s1 + 12395004788391953988 * s2 + 4443167981067561554 * s3 + 7500390692332462441 * s4 + 12515433586262237946 * s5 + 5152881173520844228 * s6 + 2876311526543549543 * s7 + 665794271176964969 * s8 + 13140309957664961201 * s9 + 9790029746103080496 * s10 + 7580688024839866118 * s11 - q9 * m)
                + 18176594401495523310 * (10321065351363958810 * s0 + 8558373207059165438 * s1 + 15379391566111639810 * s2 + 14892201863785415949 * s3 + 9350656882348467407 * s4 + 5434254718692813409 * s5 + 12942082639379970277 * s6 + 11437571946551726842 * s7 + 7388656188826905221 * s8 + 4131080631675148417 * s9 + 721505112626253183 * s10 + 17463850698301825653 * s11 - q10 * m)
                + 18024931640497672795 * (4496862336099562608 * s0 + 14815253423827224307 * s1 + 3941759144983839864 * s2 + 496394397619911104 * s3 + 14326824099506036322 * s4 + 16750030373530649240 * s5 + 567590961228605744 * s6 + 3305769176941360911 * s7 + 16162169544256723442 * s8 + 15781486664476971789 * s9 + 5656405359499826694 * s10 + 14405311909503260201 * s11 - q11 * m) == s8 + m * t
        }),
{
    61116610376930737575 * s0 + 56370902892758677885 * s1 + 68517233836058381198 * s2
        + 49150599273064562587 * s3 + 60109368952328413453 * s4 + 48126125222053410770 * s5
        + 48449138037670328969 * s6 + 53039000255359291065 * s7 + 57247113967741045264 * s8
        + 46642185640888625671 * s9 + 45545778492445497718 * s10 + 72071750450862669320 * s11
        - 5100122196584094970 * q0 - 14798850424290526893 * q1 - 4871524293593127428 * q2
        - 3964693644228700308 * q3 - 13757202860316855114 * q4 - 1733380378805905884 * q5
        - 12934883999734076137 * q6 - 16301178884859759514 * q7 - 4986874405387808053 * q8
        - 3769509608404549933 * q9 - 18176594401495523310 * q10 - 18024931640497672795 * q11
}

/// Element 8 of a state comes back when the mixing is undone.
proof fn lemma_round_trip_row_8(s: Seq<u64>)
    requires
        is_canonical_state(s),
    ensures
        mixed(INV_MDS@, mixed(MDS@, s))[8] == s[8],
{
    let m = F64::modulus();
    let y = mixed(MDS@, s);
    let q0 = lemma_mixed_entry_0(s);
    let q1 = lemma_mixed_entry_1(s);
    let q2 = lemma_mixed_entry_2(s);
    let q3 = lemma_mixed_entry_3(s);
    let q4 = lemma_mixed_entry_4(s);
    let q5 = lemma_mixed_entry_5(s);
    let q6 = lemma_mixed_entry_6(s);
    let q7 = lemma_mixed_entry_7(s);
    let q8 = lemma_mixed_entry_8(s);
    let q9 = lemma_mixed_entry_9(s);
    let q10 = lemma_mixed_entry_10(s);
    let q11 = lemma_mixed_entry_11(s);
    let t = lemma_product_row_8(s[0] as int, s[1] as int, s[2] as int, s[3] as int, s[4] as int, s[5] as int, s[6] as int, s[7] as int, s[8] as int, s[9] as int, s[10] as int, s[11] as int, q0, q1, q2, q3, q4, q5, q6, q7, q8, q9, q10, q11);
    lemma_inv_mds_row_8();
    lemma_row_dot_of_known_row(INV_MDS@, 8, y, 5100122196584094970, 14798850424290526893, 4871524293593127428, 3964693644228700308, 13757202860316855114, 1733380378805905884, 12934883999734076137, 16301178884859759514, 4986874405387808053, 3769509608404549933, 18176594401495523310, 18024931640497672795);
    assert(row_dot(INV_MDS@, 8, y, 12) == s[8] + m * t);
    lemma_mod_multiples_vanish(t, s[8] as int, m);
    lemma_small_mod(s[8] as nat, m as nat);
}

/// Row 9 of the product of the two matrices is row 9 of the identity, up to
/// multiples of the modulus.
proof fn lemma_product_row_9(s0: int, s1: int, s2: int, s3: int, s4: int, s5: int, s6: int, s7: int, s8: int, s9: int, s10: int, s11: int, q0: int, q1: int, q2: int, q3: int, q4: int, q5: int, q6: int, q7: int, q8: int, q9: int, q10: int, q11: int) -> (t: int)
    ensures
        ({
            let m = F64::modulus();
            15089590925251258017 * (14570791697008582876 * s0 + 14287730469917200292 * s1 + 15111342538701370819 * s2 + 1111401104756727833 * s3 + 18343752991270580578 * s4 + 10395724785100660355 * s5 + 14391941175009286906 * s6 + 5491581447267359356 * s7 + 1031244057765854727 * s8 + 2741392851187030668 * s9 + 8356433820458919454 * s10 + 10361960094523491469 * s11 - q0 * m)
                + 11577838215299384569 * (17296841519685941390 * s0 + 1598937820631795543 * s1 + 18252132164632030075 * s2 + 241444688886262292 * s3 + 17599434116007097224 * s4 + 9231563221418652240 * s5 + 15805688995498349990 * s6 + 17256539972135898838 * s7 + 2330753493485837824 * s8 + 6251316318077619492 * s9 + 7679024702804679152 * s10 + 2943046310091653711 * s11 - q1 * m)
                + 13260977676197803928 * (8765181257382270816 * s0 + 2214393267250057585 * s1 + 10440968658565732009 * s2 + 9245417370235283261 * s3 + 10903600118637896817 * s4 + 4336409820707567775 * s5 + 373156886479152405 * s6 + 6889031455917031511 * s7 + 3512102634804595716 * s8 + 10883465930001183358 * s9 + 111817104814006178 * s10 + 13147393342693302215 * s11 - q2 * m)
                + 13894223429254193102 * (16731403170144839149 * s0 + 4199639565163130888 * s1 + 11662145218068586336 * s2 + 12136048551747257563 * s3 + 16207916864411664082 * s4 + 5795305278626201409 * s5 + 3540476316084861152 * s6 + 1979412480869555052 * s7 + 15915841166779902642 * s8 + 12798161080806683411 * s9 + 13864641321606711741 * s10 + 15619568278035706351 * s11 - q3 * m)
                + 490185726763680722 * (6996727129159569475 * s0 + 13016806715252432443 * s1 + 10084910677946480774 * s2 + 4854976610017568115 * s3 + 3183560086131749081 * s4 + 84343487446798268 * s5 + 6976577640482780112 * s6 + 1974323274754175061 * s7 + 3184820667768309286 * s8 + 2042442151413916954 * s9 + 12542679131679444027 * s10 + 8555877572558139340 * s11 - q4 * m)
                + 8396702879775603420 * (1958751724798615870 * s0 + 6883794720630798095 * s1 + 7822377053889412653 * s2 + 5881955449915523948 * s3 + 1826773441475877560 * s4 + 14596945442992680206 * s5 + 15525428857452141988 * s6 + 2300675574592518485 * s7 + 14076693432158095299 * s8 + 3913142224341430328 * s9 + 15645746834898234524 * s10 + 10122456385203566801 * s11 - q5 * m)
                + 16316839076391380700 * (17729236334518869820 * s0 + 1749133568562304236 * s1 + 11557582145195575097 * s2 + 12354965089547101180 * s3 + 2660703340589826608 * s4 + 440334420312600854 * s5 + 2198333919637551622 * s6 + 18369576650529043046 * s7 + 7627007928139490203 * s8 + 777383514316169044 * s9 + 7198059378673430489 * s10 + 9515098447333107659 * s11 - q6 * m)
                + 15333245786856306259 * (806473578789499443 * s0 + 9336648523780571670 * s1 + 5686967342712013436 * s2 + 12904381239407564150 * s3 + 4756705991254623925 * s4 + 10206157924696479727 * s5 + 4806103767866561340 * s6 + 1872796239547928750 * s7 + 17178476308939330252 * s8 + 11771556405037973998 * s9 + 9117917859381111393 * s10 + 13067245698773587742 * s11 - q7 * m)
                + 1990648171079364364 * (10499199438819993852 * s0 + 12171212168422477108 * s1 + 5578998829898290932 * s2 + 12178641820241082619 * s3 + 4420340793047171628 * s4 + 1530190253010972336 * s5 + 15239962422294736463 * s6 + 15238687364083809199 * s7 + 12238023565508403339 * s8 + 849083947368781781 * s9 + 7020919173690859117 * s10 + 6037995052907795325 * s11 - q8 * m)
                + 5546594834266019573 * (6617094955015694929 * s0 + 17709895726490950223 * s1 + 12395004788391953988 * s2 + 4443167981067561554 * s3 + 7500390692332462441 * s4 + 12515433586262237946 * s5 + 5152881173520844228 * s6 + 2876311526543549543 * s7 + 665794271176964969 * s8 + 13140309957664961201 * s9 + 9790029746103080496 * s10 + 7580688024839866118 * s11 - q9 * m)
                + 12914492430734648756 * (10321065351363958810 * s0 + 8558373207059165438 * s1 + 15379391566111639810 * s2 + 14892201863785415949 * s3 + 9350656882348467407 * s4 + 5434254718692813409 * s5 + 12942082639379970277 * s6 + 11437571946551726842 * s7 + 7388656188826905221 * s8 + 4131080631675148417 * s9 + 721505112626253183 * s10 + 17463850698301825653 * s11 - q10 * m)
                + 9159818471374640061 * (4496862336099562608 * s0 + 14815253423827224307 * s1 + 3941759144983839864 * s2 + 496394397619911104 * s3 + 14326824099506036322 * s4 + 16750030373530649240 * s5 + 567590961228605744 * s6 + 3305769176941360911 * s7 + 16162169544256723442 * s8 + 15781486664476971789 * s9 + 5656405359499826694 * s10 + 14405311909503260201 * s11 - q11 * m) == s9 + m * t
        }),
{
    71689837520685722324 * s0 + 50220114311568862097 * s1 + 75938896425335936810 * s2
        + 54631814642942524857 * s3 + 69713790189187861634 * s4 + 53349958499651680124 * s5
        + 50356197504231356496 * s6 + 52829457090715825708 * s7 + 59055707230634794314 * s8
        + 50708622793628497061 * s9 + 50594712917879619263 * s10 + 77962978729041745475 * s11
        - 15089590925251258017 * q0 - 11577838215299384569 * q1 - 13260977676197803928 * q2
        - 13894223429254193102 * q3 - 490185726763680722 * q4 - 8396702879775603420 * q5
        - 16316839076391380700 * q6 - 15333245786856306259 * q7 - 1990648171079364364 * q8
        - 5546594834266019573 * q9 - 12914492430734648756 * q10 - 9159818471374640061 * q11
}

/// Element 9 of a state comes back when the mixing is undone.
proof fn lemma_round_trip_row_9(s: Seq<u64>)
    requires
        is_canonical_state(s),
    ensures
        mixed(INV_MDS@, mixed(MDS@, s))[9] == s[9],
{
    let m = F64::modulus();
    let y = mixed(MDS@, s);
    let q0 = lemma_mixed_entry_0(s);
    let q1 = lemma_mixed_entry_1(s);
    let q2 = lemma_mixed_entry_2(s);
    let q3 = lemma_mixed_entry_3(s);
    let q4 = lemma_mixed_entry_4(s);
    let q5 = lemma_mixed_entry_5(s);
    let q6 = lemma_mixed_entry_6(s);
    let q7 = lemma_mixed_entry_7(s);
    let q8 = lemma_mixed_entry_8(s);
    let q9 = lemma_mixed_entry_9(s);
    let q10 = lemma_mixed_entry_10(s);
    let q11 = lemma_mixed_entry_11(s);
    let t = lemma_product_row_9(s[0] as int, s[1] as int, s[2] as int, s[3] as int, s[4] as int, s[5] as int, s[6] as int, s[7] as int, s[8] as int, s[9] as int, s[10] as int, s[11] as int, q0, q1, q2, q3, q4, q5, q6, q7, q8, q9, q10, q11);
    lemma_inv_mds_row_9();
    lemma_row_dot_of_known_row(INV_MDS@, 9, y, 15089590925251258017, 11577838215299384569, 13260977676197803928, 13894223429254193102, 490185726763680722, 8396702879775603420, 16316839076391380700, 15333245786856306259, 1990648171079364364, 5546594834266019573, 12914492430734648756, 9159818471374640061);
    assert(row_dot(INV_MDS@, 9, y, 12) == s[9] + m * t);
    lemma_mod_multiples_vanish(t, s[9] as int, m);
    lemma_small_mod(s[9] as nat, m as nat);
}

/// Row 10 of the product of the two matrices is row 10 of the identity, up to
/// multiples of the modulus.
proof fn lemma_product_row_10(s0: int, s1: int, s2: int, s3: int, s4: int, s5: int, s6: int, s7: int, s8: int, s9: int, s10: int, s11: int, q0: int, q1: int, q2: int, q3: int, q4: int, q5: int, q6: int, q7: int, q8: int, q9: int, q10: int, q11: int) -> (t: int)
    ensures
        ({
            let m = F64::modulus();
            14873706267930036825 * (14570791697008582876 * s0 + 14287730469917200292 * s1 + 15111342538701370819 * s2 + 1111401104756727833 * s3 + 18343752991270580578 * s4 + 10395724785100660355 * s5 + 14391941175009286906 * s6 + 5491581447267359356 * s7 + 1031244057765854727 * s8 + 2741392851187030668 * s9 + 8356433820458919454 * s10 + 10361960094523491469 * s11 - q0 * m)
                + 4482502765708235940 * (17296841519685941390 * s0 + 1598937820631795543 * s1 + 18252132164632030075 * s2 + 241444688886262292 * s3 + 17599434116007097224 * s4 + 9231563221418652240 * s5 + 15805688995498349990 * s6 + 17256539972135898838 * s7 + 2330753493485837824 * s8 + 6251316318077619492 * s9 + 7679024702804679152 * s10 + 2943046310091653711 * s11 - q1 * m)
                + 1293121958623108848 * (8765181257382270816 * s0 + 2214393267250057585 * s1 + 10440968658565732009 * s2 + 9245417370235283261 * s3 + 10903600118637896817 * s4 + 4336409820707567775 * s5 + 373156886479152405 * s6 + 6889031455917031511 * s7 + 3512102634804595716 * s8 + 10883465930001183358 * s9 + 111817104814006178 * s10 + 13147393342693302215 * s11 - q2 * m)
                + 2912815298969125898 * (16731403170144839149 * s0 + 4199639565163130888 * s1 + 11662145218068586336 * s2 + 12136048551747257563 * s3 + 16207916864411664082 * s4 + 5795305278626201409 * s5 + 3540476316084861152 * s6 + 1979412480869555052 * s7 + 15915841166779902642 * s8 + 12798161080806683411 * s9 + 13864641321606711741 * s10 + 15619568278035706351 * s11 - q3 * m)
                + 16608741891263026413 * (6996727129159569475 * s0 + 13016806715252432443 * s1 + 10084910677946480774 * s2 + 4854976610017568115 * s3 + 3183560086131749081 * s4 + 84343487446798268 * s5 + 6976577640482780112 * s6 + 1974323274754175061 * s7 + 3184820667768309286 * s8 + 2042442151413916954 * s9 + 12542679131679444027 * s10 + 8555877572558139340 * s11 - q4 * m)
                + 5505366372645852459 * (1958751724798615870 * s0 + 6883794720630798095 * s1 + 7822377053889412653 * s2 + 5881955449915523948 * s3 + 1826773441475877560 * s4 + 14596945442992680206 * s5 + 15525428857452141988 * s6 + 2300675574592518485 * s7 + 14076693432158095299 * s8 + 3913142224341430328 * s9 + 15645746834898234524 * s10 + 10122456385203566801 * s11 - q5 * m)
                + 2959054593591611614 * (17729236334518869820 * s0 + 1749133568562304236 * s1 + 11557582145195575097 * s2 + 12354965089547101180 * s3 + 2660703340589826608 * s4 + 440334420312600854 * s5 + 2198333919637551622 * s6 + 18369576650529043046 * s7 + 7627007928139490203 * s8 + 777383514316169044 * s9 + 7198059378673430489 * s10 + 9515098447333107659 * s11 - q6 * m)
                + 10214419207372171828 * (806473578789499443 * s0 + 9336648523780571670 * s1 + 5686967342712013436 * s2 + 12904381239407564150 * s3 + 4756705991254623925 * s4 + 10206157924696479727 * s5 + 4806103767866561340 * s6 + 1872796239547928750 * s7 + 17178476308939330252 * s8 + 11771556405037973998 * s9 + 9117917859381111393 * s10 + 13067245698773587742 * s11 - q7 * m)
                + 8279669146557145773 * (10499199438819993852 * s0 + 12171212168422477108 * s1 + 5578998829898290932 * s2 + 12178641820241082619 * s3 + 4420340793047171628 * s4 + 1530190253010972336 * s5 + 15239962422294736463 * s6 + 15238687364083809199 * s7 + 12238023565508403339 * s8 + 849083947368781781 * s9 + 7020919173690859117 * s10 + 6037995052907795325 * s11 - q8 * m)
                + 14389027943756575605 * (6617094955015694929 * s0 + 17709895726490950223 * s1 + 12395004788391953988 * s2 + 4443167981067561554 * s3 + 7500390692332462441 * s4 + 12515433586262237946 * s5 + 5152881173520844228 * s6 + 2876311526543549543 * s7 + 665794271176964969 * s8 + 13140309957664961201 * s9 + 9790029746103080496 * s10 + 7580688024839866118 * s11 - q9 * m)
                + 287785456174655450 * (10321065351363958810 * s0 + 8558373207059165438 * s1 + 15379391566111639810 * s2 + 14892201863785415949 * s3 + 9350656882348467407 * s4 + 5434254718692813409 * s5 + 12942082639379970277 * s6 + 11437571946551726842 * s7 + 7388656188826905221 * s8 + 4131080631675148417 * s9 + 721505112626253183 * s10 + 17463850698301825653 * s11 - q10 * m)
                + 9392565555941172313 * (4496862336099562608 * s0 + 14815253423827224307 * s1 + 3941759144983839864 * s2 + 496394397619911104 * s3 + 14326824099506036322 * s4 + 16750030373530649240 * s5 + 567590961228605744 * s6 + 3305769176941360911 * s7 + 16162169544256723442 * s8 + 15781486664476971789 * s9 + 5656405359499826694 * s10 + 14405311909503260201 * s11 - q11 * m) == s10 + m * t
        }),
{
    41707385495839336432 * s0 + 58906213411904653386 * s1 + 50030123264044114534 * s2
        + 28190436841948501829 * s3 + 44138440510449989016 * s4 + 41061501232437002255 * s5
        + 41309741301702436059 * s6 + 26809593732682106673 * s7 + 36318340558515607612 * s8
        + 34893859297094929273 * s9 + 46645912185495594233 * s10 + 48174967712800672186 * s11
        - 14873706267930036825 * q0 - 4482502765708235940 * q1 - 1293121958623108848 * q2
        - 2912815298969125898 * q3 - 16608741891263026413 * q4 - 5505366372645852459 * q5
        - 2959054593591611614 * q6 - 10214419207372171828 * q7 - 8279669146557145773 * q8
        - 14389027943756575605 * q9 - 287785456174655450 * q10 - 9392565555941172313 * q11
}

/// Element 10 of a state comes back when the mixing is undone.
proof fn lemma_round_trip_row_10(s: Seq<u64>)
    requires
        is_canonical_state(s),
    ensures
        mixed(INV_MDS@, mixed(MDS@, s))[10] == s[10],
{
    let m = F64::modulus();
    let y = mixed(MDS@, s);
    let q0 = lemma_mixed_entry_0(s);
    let q1 = lemma_mixed_entry_1(s);
    let q2 = lemma_mixed_entry_2(s);
    let q3 = lemma_mixed_entry_3(s);
    let q4 = lemma_mixed_entry_4(s);
    let q5 = lemma_mixed_entry_5(s);
    let q6 = lemma_mixed_entry_6(s);
    let q7 = lemma_mixed_entry_7(s);
    let q8 = lemma_mixed_entry_8(s);
    let q9 = lemma_mixed_entry_9(s);
    let q10 = lemma_mixed_entry_10(s);
    let q11 = lemma_mixed_entry_11(s);
    let t = lemma_product_row_10(s[0] as int, s[1] as int, s[2] as int, s[3] as int, s[4] as int, s[5] as int, s[6] as int, s[7] as int, s[8] as int, s[9] as int, s[10] as int, s[11] as int, q0, q1, q2, q3, q4, q5, q6, q7, q8, q9, q10, q11);
    lemma_inv_mds_row_10();
    lemma_row_dot_of_known_row(INV_MDS@, 10, y, 14873706267930036825, 4482502765708235940, 1293121958623108848, 2912815298969125898, 16608741891263026413, 5505366372645852459, 2959054593591611614, 10214419207372171828, 8279669146557145773, 14389027943756575605, 287785456174655450, 9392565555941172313);
    assert(row_dot(INV_MDS@, 10, y, 12) == s[10] + m * t);
    lemma_mod_multiples_vanish(t, s[10] as int, m);
    lemma_small_mod(s[10] as nat, m as nat);
}

/// Row 11 of the product of the two matrices is row 11 of the identity, up to
/// multiples of the modulus.
proof fn lemma_product_row_11(s0: int, s1: int, s2: int, s3: int, s4: int, s5: int, s6: int, s7: int, s8: int, s9: int, s10: int, s11: int, q0: int, q1: int, q2: int, q3: int, q4: int, q5: int, q6: int, q7: int, q8: int, q9: int, q10: int, q11: int) -> (t: int)
    ensures
        ({
            let m = F64::modulus();
            4759713326423655569 * (14570791697008582876 * s0 + 14287730469917200292 * s1 + 15111342538701370819 * s2 + 1111401104756727833 * s3 + 18343752991270580578 * s4 + 10395724785100660355 * s5 + 14391941175009286906 * s6 + 5491581447267359356 * s7 + 1031244057765854727 * s8 + 2741392851187030668 * s9 + 8356433820458919454 * s10 + 10361960094523491469 * s11 - q0 * m)
                + 3126680109051985680 * (17296841519685941390 * s0 + 1598937820631795543 * s1 + 18252132164632030075 * s2 + 241444688886262292 * s3 + 17599434116007097224 * s4 + 9231563221418652240 * s5 + 15805688995498349990 * s6 + 17256539972135898838 * s7 + 2330753493485837824 * s8 + 6251316318077619492 * s9 + 7679024702804679152 * s10 + 2943046310091653711 * s11 - q1 * m)
                + 12818455398525559133 * (8765181257382270816 * s0 + 2214393267250057585 * s1 + 10440968658565732009 * s2 + 9245417370235283261 * s3 + 10903600118637896817 * s4 + 4336409820707567775 * s5 + 373156886479152405 * s6 + 6889031455917031511 * s7 + 3512102634804595716 * s8 + 10883465930001183358 * s9 + 111817104814006178 * s10 + 13147393342693302215 * s11 - q2 * m)
                + 2369691254364065970 * (16731403170144839149 * s0 + 4199639565163130888 * s1 + 11662145218068586336 * s2 + 12136048551747257563 * s3 + 16207916864411664082 * s4 + 5795305278626201409 * s5 + 3540476316084861152 * s6 + 1979412480869555052 * s7 + 15915841166779902642 * s8 + 12798161080806683411 * s9 + 13864641321606711741 * s10 + 15619568278035706351 * s11 - q3 * m)
                + 4830855309800709645 * (6996727129159569475 * s0 + 13016806715252432443 * s1 + 10084910677946480774 * s2 + 4854976610017568115 * s3 + 3183560086131749081 * s4 + 84343487446798268 * s5 + 6976577640482780112 * s6 + 1974323274754175061 * s7 + 3184820667768309286 * s8 + 2042442151413916954 * s9 + 12542679131679444027 * s10 + 8555877572558139340 * s11 - q4 * m)
                + 7905662622950188751 * (1958751724798615870 * s0 + 6883794720630798095 * s1 + 7822377053889412653 * s2 + 5881955449915523948 * s3 + 1826773441475877560 * s4 + 14596945442992680206 * s5 + 15525428857452141988 * s6 + 2300675574592518485 * s7 + 14076693432158095299 * s8 + 3913142224341430328 * s9 + 15645746834898234524 * s10 + 10122456385203566801 * s11 - q5 * m)
                + 12645002336872020497 * (17729236334518869820 * s0 + 1749133568562304236 * s1 + 11557582145195575097 * s2 + 12354965089547101180 * s3 + 2660703340589826608 * s4 + 440334420312600854 * s5 + 2198333919637551622 * s6 + 18369576650529043046 * s7 + 7627007928139490203 * s8 + 777383514316169044 * s9 + 7198059378673430489 * s10 + 9515098447333107659 * s11 - q6 * m)
                + 16986477359485720724 * (806473578789499443 * s0 + 9336648523780571670 * s1 + 5686967342712013436 * s2 + 12904381239407564150 * s3 + 4756705991254623925 * s4 + 10206157924696479727 * s5 + 4806103767866561340 * s6 + 1872796239547928750 * s7 + 17178476308939330252 * s8 + 11771556405037973998 * s9 + 9117917859381111393 * s10 + 13067245698773587742 * s11 - q7 * m)
                + 14182644859010550052 * (10499199438819993852 * s0 + 12171212168422477108 * s1 + 5578998829898290932 * s2 + 12178641820241082619 * s3 + 4420340793047171628 * s4 + 1530190253010972336 * s5 + 15239962422294736463 * s6 + 15238687364083809199 * s7 + 12238023565508403339 * s8 + 849083947368781781 * s9 + 7020919173690859117 * s10 + 6037995052907795325 * s11 - q8 * m)
                + 11863112114704177882 * (6617094955015694929 * s0 + 17709895726490950223 * s1 + 12395004788391953988 * s2 + 4443167981067561554 * s3 + 7500390692332462441 * s4 + 12515433586262237946 * s5 + 5152881173520844228 * s6 + 2876311526543549543 * s7 + 665794271176964969 * s8 + 13140309957664961201 * s9 + 9790029746103080496 * s10 + 7580688024839866118 * s11 - q9 * m)
                + 17607018699185664534 * (10321065351363958810 * s0 + 8558373207059165438 * s1 + 15379391566111639810 * s2 + 14892201863785415949 * s3 + 9350656882348467407 * s4 + 5434254718692813409 * s5 + 12942082639379970277 * s6 + 11437571946551726842 * s7 + 7388656188826905221 * s8 + 4131080631675148417 * s9 + 721505112626253183 * s10 + 17463850698301825653 * s11 - q10 * m)
                + 7041439209722523945 * (4496862336099562608 * s0 + 14815253423827224307 * s1 + 3941759144983839864 * s2 + 496394397619911104 * s3 + 14326824099506036322 * s4 + 16750030373530649240 * s5 + 567590961228605744 * s6 + 3305769176941360911 * s7 + 16162169544256723442 * s8 + 15781486664476971789 * s9 + 5656405359499826694 * s10 + 14405311909503260201 * s11 - q11 * m) == s11 + m * t
        }),
{
    54394583102206963133 * s0 + 56762443412244002762 * s1 + 63343602290253755022 * s2
        + 59080143508279909365 * s3 + 47811585861316242890 * s4 + 44788616334823497466 * s5
        + 49120466156726904063 * s6 + 50947678202509403118 * s7 + 56118885750962100267 * s8
        + 43628765346158020903 * s9 + 43178524590792829686 * s10 + 71134091430741640130 * s11
        - 4759713326423655569 * q0 - 3126680109051985680 * q1 - 12818455398525559133 * q2
        - 2369691254364065970 * q3 - 4830855309800709645 * q4 - 7905662622950188751 * q5
        - 12645002336872020497 * q6 - 16986477359485720724 * q7 - 14182644859010550052 * q8
        - 11863112114704177882 * q9 - 17607018699185664534 * q10 - 7041439209722523945 * q11
}

/// Element 11 of a state comes back when the mixing is undone.
proof fn lemma_round_trip_row_11(s: Seq<u64>)
    requires
        is_canonical_state(s),
    ensures
        mixed(INV_MDS@, mixed(MDS@, s))[11] == s[11],
{
    let m = F64::modulus();
    let y = mixed(MDS@, s);
    let q0 = lemma_mixed_entry_0(s);
    let q1 = lemma_mixed_entry_1(s);
    let q2 = lemma_mixed_entry_2(s);
    let q3 = lemma_mixed_entry_3(s);
    let q4 = lemma_mixed_entry_4(s);
    let q5 = lemma_mixed_entry_5(s);
    let q6 = lemma_mixed_entry_6(s);
    let q7 = lemma_mixed_entry_7(s);
    let q8 = lemma_mixed_entry_8(s);
    let q9 = lemma_mixed_entry_9(s);
    let q10 = lemma_mixed_entry_10(s);
    let q11 = lemma_mixed_entry_11(s);
    let t = lemma_product_row_11(s[0] as int, s[1] as int, s[2] as int, s[3] as int, s[4] as int, s[5] as int, s[6] as int, s[7] as int, s[8] as int, s[9] as int, s[10] as int, s[11] as int, q0, q1, q2, q3, q4, q5, q6, q7, q8, q9, q10, q11);
    lemma_inv_mds_row_11();
    lemma_row_dot_of_known_row(INV_MDS@, 11, y, 4759713326423655569, 3126680109051985680, 12818455398525559133, 2369691254364065970, 4830855309800709645, 7905662622950188751, 12645002336872020497, 16986477359485720724, 14182644859010550052, 11863112114704177882, 17607018699185664534, 7041439209722523945);
    assert(row_dot(INV_MDS@, 11, y, 12) == s[11] + m * t);
    lemma_mod_multiples_vanish(t, s[11] as int, m);
    lemma_small_mod(s[11] as nat, m as nat);
}

/// Undoing the mixing gives the state back: for every state whose first twelve
/// elements are canonical, multiplying by `MDS` and then by `INV_MDS` changes
/// nothing.
pub proof fn lemma_mds_round_trip(s: Seq<u64>)
    requires
        is_canonical_state(s),
    ensures
        mixed(INV_MDS@, mixed(MDS@, s)) == s,
{
    lemma_round_trip_row_0(s);
    lemma_round_trip_row_1(s);
    lemma_round_trip_row_2(s);
    lemma_round_trip_row_3(s);
    lemma_round_trip_row_4(s);
    lemma_round_trip_row_5(s);
    lemma_round_trip_row_6(s);
    lemma_round_trip_row_7(s);
    lemma_round_trip_row_8(s);
    lemma_round_trip_row_9(s);
    lemma_round_trip_row_10(s);
    lemma_round_trip_row_11(s);
    assert(mixed(INV_MDS@, mixed(MDS@, s)) =~= s);
}

} // verus!
